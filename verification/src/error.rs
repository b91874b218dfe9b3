//! Errors produced by investment operations.
use vstd::prelude::*;
use vstd::string::StringExecFns;
use crate::text::{decimal_string, decimal_text};

verus! {

/// Domain-specific errors produced by investment operations.
#[derive(Debug, PartialEq)]
pub enum InvestmentError {
    /// A monetary value or price failed a positive-number constraint.
    InvalidAmount(String),
    /// A date string failed YYYY-MM-DD parsing or calendar validation.
    InvalidDate(String),
    /// No investment matched the supplied ID or prefix.
    NotFound(String),
    /// A sell operation requested more units than are available.
    InsufficientUnits(String),
}

impl InvestmentError {
    /// The text shown for the error: a fixed heading, then the detail.
    pub open spec fn spec_message(&self) -> Seq<char> {
        match self {
            InvestmentError::InvalidAmount(s) => "Invalid amount: "@ + s@,
            InvestmentError::InvalidDate(s) => "Invalid date format: "@ + s@,
            InvestmentError::NotFound(s) => "Investment not found: "@ + s@,
            InvestmentError::InsufficientUnits(s) => "Insufficient units: "@ + s@,
        }
    }

    /// Renders the error as text (what `Display` shows).
    pub fn message(&self) -> (res: String)
        ensures
            res@ == self.spec_message(),
    {
        match self {
            InvestmentError::InvalidAmount(s) => String::from_str("Invalid amount: ").concat(s.as_str()),
            InvestmentError::InvalidDate(s) => String::from_str("Invalid date format: ").concat(s.as_str()),
            InvestmentError::NotFound(s) => String::from_str("Investment not found: ").concat(s.as_str()),
            InvestmentError::InsufficientUnits(s) => String::from_str("Insufficient units: ").concat(s.as_str()),
        }
    }
}

/// Errors produced while looking investments up in a collection.
#[derive(Debug, PartialEq)]
pub enum StorageError {
    /// The supplied ID prefix matched several investments and no ID exactly.
    AmbiguousId { prefix: String, matches: usize },
}

impl StorageError {
    /// The text shown for the error.
    pub open spec fn spec_message(&self) -> Seq<char> {
        match self {
            StorageError::AmbiguousId { prefix, matches } => "Ambiguous ID prefix '"@ + prefix@
                + "' matches "@ + decimal_text(*matches as nat)
                + " investments. Please provide more characters."@,
        }
    }

    /// Renders the error as text.
    pub fn message(&self) -> (res: String)
        ensures
            res@ == self.spec_message(),
    {
        match self {
            StorageError::AmbiguousId { prefix, matches } => {
                let count = decimal_string(*matches);
                String::from_str("Ambiguous ID prefix '").concat(prefix.as_str()).concat(
                    "' matches ",
                ).concat(count.as_str()).concat(" investments. Please provide more characters.")
            },
        }
    }
}

/// Why a change to a stored investment did not happen.
#[derive(Debug, PartialEq)]
pub enum ChangeError {
    /// The ID could not be resolved.
    Lookup(StorageError),
    /// The investment refused the change.
    Refused(InvestmentError),
}

} // verus!

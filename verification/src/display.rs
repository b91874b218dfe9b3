//! Helpers shared by the command output.
use vstd::prelude::*;
use vstd::string::StringExecFns;
use crate::config::Config;
use crate::models::is_digit;

verus! {

/// A timestamp as chrono writes one with `%Y-%m-%d %H:%M:%S`: a year of at
/// least four digits (with a leading sign outside 0 to 9999), then
/// `-MM-DD HH:MM:SS` with two-digit fields.
pub open spec fn is_timestamp_text(s: Seq<char>) -> bool {
    let n = s.len();
    &&& n >= 19
    &&& (is_digit(s[0]) || s[0] == '+' || s[0] == '-')
    &&& forall|i: int| 1 <= i < n - 15 ==> is_digit(#[trigger] s[i])
    &&& s[n - 15] == '-' && is_digit(s[n - 14]) && is_digit(s[n - 13])
    &&& s[n - 12] == '-' && is_digit(s[n - 11]) && is_digit(s[n - 10])
    &&& s[n - 9] == ' ' && is_digit(s[n - 8]) && is_digit(s[n - 7])
    &&& s[n - 6] == ':' && is_digit(s[n - 5]) && is_digit(s[n - 4])
    &&& s[n - 3] == ':' && is_digit(s[n - 2]) && is_digit(s[n - 1])
}

/// The current UTC time written by chrono: `Utc::now().format("%Y-%m-%d
/// %H:%M:%S")`.  `%Y` pads the year to four digits and signs it outside 0 to
/// 9999; the other fields are zero-padded to two digits.  Which time it is
/// is not stated: it depends on the clock.
#[verifier::external_body]
pub fn now_timestamp() -> (res: String)
    ensures
        is_timestamp_text(res@),
{
    chrono::Utc::now().format("%Y-%m-%d %H:%M:%S").to_string()
}

/// Whether coloured output is wanted, given the configuration that could be
/// loaded (`None` when it could not): on unless the configuration turns it off.
pub fn colors_enabled(config: Option<&Config>) -> (res: bool)
    ensures
        res == match config {
            Some(c) => c.color_output != Some(false),
            None => true,
        },
{
    match config {
        Some(c) => match c.color_output {
            Some(b) => b,
            None => true,
        },
        None => true,
    }
}

/// The currency symbol to display, given the configuration that could be
/// loaded (`None` when it could not): the configured one, or "$".
pub fn load_currency_symbol(config: Option<&Config>) -> (res: String)
    ensures
        res@ == match config {
            Some(c) => c.spec_currency_symbol(),
            None => "$"@,
        },
{
    match config {
        Some(c) => c.currency_symbol(),
        None => String::from_str("$"),
    }
}

} // verus!

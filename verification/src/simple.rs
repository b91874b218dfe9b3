//! The basic investment record used by the first command set: no price
//! history or dividends, a shape-only date check, and exact-ID storage.
use vstd::prelude::*;
use vstd::string::StringExecFns;
use std::path::PathBuf;
use crate::commands::{is_date_shaped, spec_date_shaped};
use crate::display::{is_timestamp_text, now_timestamp};
use crate::models::AmountSign;
use crate::storage::{is_v4_uuid, new_uuid_text};
use crate::text::text_eq;

pub use crate::models::InvestmentType;

verus! {

/// Errors of the basic investment record.
#[derive(Debug, PartialEq)]
pub enum InvestmentError {
    InvalidAmount(String),
    InvalidDate(String),
    InvalidType(String),
}

impl InvestmentError {
    /// The text shown for the error.
    pub open spec fn spec_message(&self) -> Seq<char> {
        match self {
            InvestmentError::InvalidAmount(s) => "Invalid amount: "@ + s@,
            InvestmentError::InvalidDate(s) => "Invalid date format: "@ + s@,
            InvestmentError::InvalidType(s) => "Invalid investment type: "@ + s@,
        }
    }

    /// Renders the error as text (what `Display` shows).
    pub fn message(&self) -> (res: String)
        ensures
            res@ == self.spec_message(),
    {
        match self {
            InvestmentError::InvalidAmount(s) => String::from_str("Invalid amount: ").concat(s.as_str()),
            InvestmentError::InvalidDate(s) => String::from_str("Invalid date format: ").concat(s.as_str()),
            InvestmentError::InvalidType(s) => String::from_str("Invalid investment type: ").concat(
                s.as_str(),
            ),
        }
    }
}

/// A basic investment record.
#[derive(Debug)]
pub struct Investment<M> {
    pub id: String,
    pub investment_type: InvestmentType,
    pub name: String,
    pub symbol: Option<String>,
    pub amount: M,
    pub date: String,
    pub current_value: Option<M>,
    pub notes: Option<String>,
    pub created_at: String,
    pub updated_at: String,
}

impl<M: Copy> Investment<M> {
    /// Creates a record.  Fails with `InvalidAmount` when the amount is not
    /// above zero (a NaN amount included), otherwise with `InvalidDate` when the date is not shaped
    /// as YYYY-MM-DD (ten bytes, hyphens as the fifth and eighth character).
    pub fn new(
        id: String,
        investment_type: InvestmentType,
        name: String,
        symbol: Option<String>,
        amount: M,
        amount_sign: AmountSign,
        date: String,
        current_value: Option<M>,
        notes: Option<String>,
    ) -> (res: Result<Self, InvestmentError>)
        ensures
            !(amount_sign is Positive) ==> (res matches Err(InvestmentError::InvalidAmount(m))
                && m@ == "Amount must be greater than 0"@),
            amount_sign is Positive && !spec_date_shaped(date@) ==> (res matches Err(
                InvestmentError::InvalidDate(m),
            ) && m@ == "Date must be in YYYY-MM-DD format"@),
            amount_sign is Positive && spec_date_shaped(date@) ==> (res matches Ok(inv)
                && inv.id == id && inv.investment_type == investment_type && inv.name == name
                && inv.symbol == symbol && inv.amount == amount && inv.date == date
                && inv.current_value == current_value && inv.notes == notes && inv.created_at
                == inv.updated_at && is_timestamp_text(inv.created_at@)),
    {
        if amount_sign != AmountSign::Positive {
            return Err(InvestmentError::InvalidAmount(String::from_str("Amount must be greater than 0")));
        }
        if !is_date_shaped(date.as_str()) {
            return Err(InvestmentError::InvalidDate(String::from_str("Date must be in YYYY-MM-DD format")));
        }
        let now = now_timestamp();
        Ok(Investment {
            id,
            investment_type,
            name,
            symbol,
            amount,
            date,
            current_value,
            notes,
            created_at: now.clone(),
            updated_at: now,
        })
    }

    /// Sets the invested amount; fails, changing nothing, when it is not above zero.
    pub fn update_amount(&mut self, new_amount: M, sign: AmountSign) -> (res: Result<(), InvestmentError>)
        ensures
            sign.at_most_zero() ==> (res matches Err(InvestmentError::InvalidAmount(m)) && m@
                == "Amount must be greater than 0"@ && *final(self) == *old(self)),
            !sign.at_most_zero() ==> (res is Ok && *final(self) == (Investment {
                amount: new_amount,
                updated_at: final(self).updated_at,
                ..*old(self)
            }) && is_timestamp_text(final(self).updated_at@)),
    {
        match sign {
            AmountSign::Negative | AmountSign::Zero => {
                return Err(InvestmentError::InvalidAmount(String::from_str("Amount must be greater than 0")));
            },
            _ => {},
        }
        self.amount = new_amount;
        self.updated_at = now_timestamp();
        Ok(())
    }

    /// Sets the current value; fails, changing nothing, when it is negative.
    pub fn update_current_value(&mut self, new_value: M, sign: AmountSign) -> (res: Result<(), InvestmentError>)
        ensures
            sign is Negative ==> (res matches Err(InvestmentError::InvalidAmount(m)) && m@
                == "Value cannot be negative"@ && *final(self) == *old(self)),
            !(sign is Negative) ==> (res is Ok && *final(self) == (Investment {
                current_value: Some(new_value),
                updated_at: final(self).updated_at,
                ..*old(self)
            }) && is_timestamp_text(final(self).updated_at@)),
    {
        if sign == AmountSign::Negative {
            return Err(InvestmentError::InvalidAmount(String::from_str("Value cannot be negative")));
        }
        self.current_value = Some(new_value);
        self.updated_at = now_timestamp();
        Ok(())
    }
}

/// The index of the first record whose ID is exactly `id`, or the length
/// when there is none.
pub open spec fn index_of_exact<M>(s: Seq<Investment<M>>, id: Seq<char>) -> int
    decreases s.len(),
{
    if s.len() == 0 {
        0
    } else if s[0].id@ == id {
        0
    } else {
        1 + index_of_exact(s.drop_first(), id)
    }
}

proof fn lemma_index_of_exact<M>(s: Seq<Investment<M>>, id: Seq<char>, i: int)
    requires
        0 <= i <= s.len(),
        forall|k: int| 0 <= k < i ==> #[trigger] s[k].id@ != id,
        i == s.len() || s[i].id@ == id,
    ensures
        index_of_exact(s, id) == i,
    decreases s.len(),
{
    if s.len() > 0 && i > 0 {
        let s1 = s.drop_first();
        assert forall|k: int| 0 <= k < i - 1 implies #[trigger] s1[k].id@ != id by {
            assert(s1[k] == s[k + 1]);
        }
        lemma_index_of_exact(s1, id, i - 1);
    }
}

/// The basic records held in the data file at `data_file`; look-ups match
/// IDs exactly.
pub struct Storage<M> {
    data_file: PathBuf,
    investments: Vec<Investment<M>>,
}

impl<M> View for Storage<M> {
    type V = Seq<Investment<M>>;

    closed spec fn view(&self) -> Seq<Investment<M>> {
        self.investments@
    }
}

impl<M> Storage<M> {
    /// The path of the data file.
    pub closed spec fn spec_data_file(&self) -> PathBuf {
        self.data_file
    }

    /// A `Storage` for the data file at `data_file`, holding no records.
    pub fn new(data_file: PathBuf) -> (res: Self)
        ensures
            res@ == Seq::<Investment<M>>::empty(),
            res.spec_data_file() == data_file,
    {
        Storage { data_file, investments: Vec::new() }
    }

    /// A `Storage` for the data file at `data_file`, holding the records read
    /// from it.
    pub fn with_investments(data_file: PathBuf, investments: Vec<Investment<M>>) -> (res: Self)
        ensures
            res@ == investments@,
            res.spec_data_file() == data_file,
    {
        Storage { data_file, investments }
    }

    /// The path of the data file.
    pub fn data_file(&self) -> (res: &PathBuf)
        ensures
            *res == self.spec_data_file(),
    {
        &self.data_file
    }

    /// Every record held, in order.
    pub fn get_all_investments(&self) -> (res: &[Investment<M>])
        ensures
            res@ == self@,
    {
        self.investments.as_slice()
    }

    /// Gives up the records held, in order.
    pub fn into_investments(self) -> (res: Vec<Investment<M>>)
        ensures
            res@ == self@,
    {
        self.investments
    }

    fn position(&self, id: &str) -> (res: usize)
        ensures
            res == index_of_exact(self@, id@),
    {
        let n = self.investments.len();
        let mut i: usize = 0;
        while i < n
            invariant
                n == self@.len(),
                i <= n,
                forall|k: int| 0 <= k < i ==> #[trigger] self@[k].id@ != id@,
            decreases n - i,
        {
            if text_eq(self.investments[i].id.as_str(), id) {
                proof {
                    lemma_index_of_exact(self@, id@, i as int);
                }
                return i;
            }
            i = i + 1;
        }
        proof {
            lemma_index_of_exact(self@, id@, n as int);
        }
        n
    }

    /// Adds a record, giving it a fresh UUID when its ID is empty, and returns
    /// it as stored.
    pub fn add_investment(&mut self, investment: Investment<M>) -> (res: &Investment<M>)
        ensures
            investment.id@.len() > 0 ==> *res == investment,
            investment.id@.len() == 0 ==> is_v4_uuid(res.id@) && *res == (Investment {
                id: res.id,
                ..investment
            }),
            final(self)@ == old(self)@.push(*res),
            final(self).spec_data_file() == old(self).spec_data_file(),
    {
        let mut investment = investment;
        if investment.id.as_str().is_empty() {
            investment.id = new_uuid_text();
        }
        self.investments.push(investment);
        let n = self.investments.len();
        &self.investments[n - 1]
    }

    /// The first record whose ID is exactly `id`.
    pub fn get_investment(&self, id: &str) -> (res: Option<&Investment<M>>)
        ensures
            index_of_exact(self@, id@) < self@.len() ==> res == Some(&self@[index_of_exact(self@, id@)]),
            index_of_exact(self@, id@) >= self@.len() ==> res is None,
    {
        let p = self.position(id);
        if p < self.investments.len() {
            Some(&self.investments[p])
        } else {
            None
        }
    }

    /// Replaces the first record with exactly the ID of `updated` and returns
    /// the previous one; changes nothing when no ID matches.
    pub fn update_investment(&mut self, updated: Investment<M>) -> (res: Option<Investment<M>>)
        ensures
            ({
                let p = index_of_exact(old(self)@, updated.id@);
                if p < old(self)@.len() {
                    res == Some(old(self)@[p]) && final(self)@ == old(self)@.update(p, updated)
                } else {
                    res is None && final(self)@ == old(self)@
                }
            }),
            final(self).spec_data_file() == old(self).spec_data_file(),
    {
        let p = self.position(updated.id.as_str());
        if p < self.investments.len() {
            let previous = self.investments.remove(p);
            self.investments.insert(p, updated);
            assert(self.investments@ =~= old(self)@.update(p as int, updated));
            Some(previous)
        } else {
            None
        }
    }

    /// Removes and returns the first record whose ID is exactly `id`.
    pub fn delete_investment(&mut self, id: &str) -> (res: Option<Investment<M>>)
        ensures
            ({
                let p = index_of_exact(old(self)@, id@);
                if p < old(self)@.len() {
                    res == Some(old(self)@[p]) && final(self)@ == old(self)@.remove(p)
                } else {
                    res is None && final(self)@ == old(self)@
                }
            }),
            final(self).spec_data_file() == old(self).spec_data_file(),
    {
        let p = self.position(id);
        if p < self.investments.len() {
            Some(self.investments.remove(p))
        } else {
            None
        }
    }
}

/// After adding a record whose ID no other record has, looking that ID up
/// finds exactly that record, at the end of the collection; deleting it
/// then gives back the collection as it was before.
pub proof fn law_get_after_add<M>(s: Seq<Investment<M>>, x: Investment<M>)
    requires
        forall|k: int| 0 <= k < s.len() ==> #[trigger] s[k].id@ != x.id@,
    ensures
        index_of_exact(s.push(x), x.id@) == s.len(),
        s.push(x)[index_of_exact(s.push(x), x.id@)] == x,
        s.push(x).remove(index_of_exact(s.push(x), x.id@)) == s,
{
    let t = s.push(x);
    assert forall|k: int| 0 <= k < s.len() implies #[trigger] t[k].id@ != x.id@ by {
        assert(t[k] == s[k]);
    }
    lemma_index_of_exact(t, x.id@, s.len() as int);
    assert(t.remove(s.len() as int) =~= s);
}

} // verus!

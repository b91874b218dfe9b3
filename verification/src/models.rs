//! Investments, their price history and dividend payments.
//!
//! Monetary values are carried as a type parameter `M`: the library never
//! computes with them.  Where a rule depends on how an amount compares with
//! zero, the caller supplies that comparison as an [`AmountSign`].
use vstd::prelude::*;
use vstd::string::StringExecFns;
use crate::error::InvestmentError;
use crate::text::{
    ascii_lower, is_ascii_text, text_eq, text_le, text_le_exec, lemma_text_le_total, lowercase_text,
    to_lowercase,
};
use crate::display::{is_timestamp_text, now_timestamp};

verus! {

// ── Investment types ─────────────────────────────────────────────────────────

/// The kinds of investment a portfolio can hold.
#[derive(Debug, PartialEq)]
pub enum InvestmentType {
    Stock,
    ETF,
    MutualFund,
    Deposit,
    Bond,
    Crypto,
    Other(String),
}

impl Clone for InvestmentType {
    fn clone(&self) -> (res: Self)
        ensures
            res == *self,
    {
        match self {
            InvestmentType::Stock => InvestmentType::Stock,
            InvestmentType::ETF => InvestmentType::ETF,
            InvestmentType::MutualFund => InvestmentType::MutualFund,
            InvestmentType::Deposit => InvestmentType::Deposit,
            InvestmentType::Bond => InvestmentType::Bond,
            InvestmentType::Crypto => InvestmentType::Crypto,
            InvestmentType::Other(s) => InvestmentType::Other(s.clone()),
        }
    }
}

/// `t` is the type that the (already lower-cased) name `lower` stands for:
/// one of the known keywords, or a custom type carrying the name itself.
pub open spec fn names_type(t: InvestmentType, lower: Seq<char>) -> bool {
    if lower == "stock"@ {
        t == InvestmentType::Stock
    } else if lower == "etf"@ {
        t == InvestmentType::ETF
    } else if lower == "mutualfund"@ || lower == "mutual_fund"@ || lower == "mutual fund"@ {
        t == InvestmentType::MutualFund
    } else if lower == "deposit"@ {
        t == InvestmentType::Deposit
    } else if lower == "bond"@ {
        t == InvestmentType::Bond
    } else if lower == "crypto"@ {
        t == InvestmentType::Crypto
    } else {
        t matches InvestmentType::Other(s) && s@ == lower
    }
}

/// A name that `names_type` reads as a built-in type.
pub open spec fn is_type_keyword(lower: Seq<char>) -> bool {
    lower == "stock"@ || lower == "etf"@ || lower == "mutualfund"@ || lower == "mutual_fund"@
        || lower == "mutual fund"@ || lower == "deposit"@ || lower == "bond"@ || lower == "crypto"@
}

/// The display name of a built-in type, or of a custom type named in ASCII,
/// is ASCII.
pub proof fn lemma_display_is_ascii(t: InvestmentType)
    requires
        t matches InvestmentType::Other(s) ==> is_ascii_text(s@),
    ensures
        is_ascii_text(t.spec_display()),
{
    reveal_strlit("Stock");
    reveal_strlit("ETF");
    reveal_strlit("Mutual Fund");
    reveal_strlit("Deposit");
    reveal_strlit("Bond");
    reveal_strlit("Crypto");
}

/// Displaying a type and parsing the text back gives the type back: for
/// every built-in type, and for a custom type whose name is lower-case ASCII
/// and no keyword.  (`back` is what `parse_name` gives for the displayed
/// text, which is ASCII.)
pub proof fn law_display_then_parse(t: InvestmentType, back: InvestmentType)
    requires
        match t {
            InvestmentType::Other(s) => is_ascii_text(s@) && ascii_lower(s@) == s@ && !is_type_keyword(
                s@,
            ),
            _ => true,
        },
        names_type(back, ascii_lower(t.spec_display())),
    ensures
        is_ascii_text(t.spec_display()),
        match t {
            InvestmentType::Other(s) => match back {
                InvestmentType::Other(b) => b@ == s@,
                _ => false,
            },
            _ => back == t,
        },
{
    reveal_strlit("Stock");
    reveal_strlit("ETF");
    reveal_strlit("Mutual Fund");
    reveal_strlit("Deposit");
    reveal_strlit("Bond");
    reveal_strlit("Crypto");
    reveal_strlit("stock");
    reveal_strlit("etf");
    reveal_strlit("mutualfund");
    reveal_strlit("mutual_fund");
    reveal_strlit("mutual fund");
    reveal_strlit("deposit");
    reveal_strlit("bond");
    reveal_strlit("crypto");
    let d = t.spec_display();
    match t {
        InvestmentType::Stock => {
            assert(ascii_lower(d) =~= "stock"@);
        },
        InvestmentType::ETF => {
            assert(ascii_lower(d) =~= "etf"@);
        },
        InvestmentType::MutualFund => {
            assert(ascii_lower(d) =~= "mutual fund"@);
        },
        InvestmentType::Deposit => {
            assert(ascii_lower(d) =~= "deposit"@);
        },
        InvestmentType::Bond => {
            assert(ascii_lower(d) =~= "bond"@);
        },
        InvestmentType::Crypto => {
            assert(ascii_lower(d) =~= "crypto"@);
        },
        InvestmentType::Other(s) => {},
    }
}

/// Like `names_type`, but only the spellings `mutualfund` and `mutual_fund`
/// name a mutual fund.
pub open spec fn names_type_strict(t: InvestmentType, lower: Seq<char>) -> bool {
    if lower == "mutual fund"@ {
        t matches InvestmentType::Other(s) && s@ == lower
    } else {
        names_type(t, lower)
    }
}

impl InvestmentType {
    /// The name under which the type is displayed.
    pub open spec fn spec_display(&self) -> Seq<char> {
        match self {
            InvestmentType::Stock => "Stock"@,
            InvestmentType::ETF => "ETF"@,
            InvestmentType::MutualFund => "Mutual Fund"@,
            InvestmentType::Deposit => "Deposit"@,
            InvestmentType::Bond => "Bond"@,
            InvestmentType::Crypto => "Crypto"@,
            InvestmentType::Other(s) => s@,
        }
    }

    /// Returns the display name of the type ("Mutual Fund", or the custom name).
    pub fn display_name(&self) -> (res: String)
        ensures
            res@ == self.spec_display(),
    {
        match self {
            InvestmentType::Stock => String::from_str("Stock"),
            InvestmentType::ETF => String::from_str("ETF"),
            InvestmentType::MutualFund => String::from_str("Mutual Fund"),
            InvestmentType::Deposit => String::from_str("Deposit"),
            InvestmentType::Bond => String::from_str("Bond"),
            InvestmentType::Crypto => String::from_str("Crypto"),
            InvestmentType::Other(s) => s.clone(),
        }
    }

    /// Maps an already lower-cased name to its type.
    fn from_lowercase(lower: String) -> (t: InvestmentType)
        ensures
            names_type(t, lower@),
    {
        if text_eq(lower.as_str(), "stock") {
            InvestmentType::Stock
        } else if text_eq(lower.as_str(), "etf") {
            InvestmentType::ETF
        } else if text_eq(lower.as_str(), "mutualfund") || text_eq(lower.as_str(), "mutual_fund")
            || text_eq(lower.as_str(), "mutual fund") {
            InvestmentType::MutualFund
        } else if text_eq(lower.as_str(), "deposit") {
            InvestmentType::Deposit
        } else if text_eq(lower.as_str(), "bond") {
            InvestmentType::Bond
        } else if text_eq(lower.as_str(), "crypto") {
            InvestmentType::Crypto
        } else {
            InvestmentType::Other(lower)
        }
    }

    /// Parses a type name, ignoring case: the keywords `stock`, `etf`,
    /// `mutualfund` (or `mutual_fund`, `mutual fund`), `deposit`, `bond` and
    /// `crypto`; any other name becomes a custom type holding the lower-cased
    /// name.  Parsing never fails.
    pub fn parse_name(s: &str) -> (t: InvestmentType)
        ensures
            names_type(t, lowercase_text(s@)),
            is_ascii_text(s@) ==> names_type(t, ascii_lower(s@)),
    {
        let lower = to_lowercase(s);
        Self::from_lowercase(lower)
    }
}

impl std::str::FromStr for InvestmentType {
    type Err = std::convert::Infallible;

    fn from_str(s: &str) -> (res: Result<Self, Self::Err>)
        ensures
            res matches Ok(t) && names_type(t, lowercase_text(s@)) && (is_ascii_text(s@) ==> names_type(
                t,
                ascii_lower(s@),
            )),
    {
        Ok(InvestmentType::parse_name(s))
    }
}

/// Parses the investment type given on the command line.  The same keywords
/// as `InvestmentType::parse_name`, except that only `mutualfund` and
/// `mutual_fund` name a mutual fund; it always succeeds.
pub fn parse_investment_type(investment_type: &str) -> (res: Result<InvestmentType, InvestmentError>)
    ensures
        res matches Ok(t) && names_type_strict(t, lowercase_text(investment_type@)),
{
    let lower = to_lowercase(investment_type);
    if text_eq(lower.as_str(), "mutual fund") {
        Ok(InvestmentType::Other(lower))
    } else {
        Ok(InvestmentType::from_lowercase(lower))
    }
}

// ── Dates ────────────────────────────────────────────────────────────────────

#[verifier::external_type_specification]
#[verifier::external_body]
pub struct ExNaiveDate(chrono::NaiveDate);

#[verifier::external_type_specification]
#[verifier::external_body]
pub struct ExParseError(chrono::ParseError);

/// Whether `chrono::NaiveDate::parse_from_str` accepts the text `s` under the
/// format `fmt`.
pub uninterp spec fn chrono_parses_date(s: Seq<char>, fmt: Seq<char>) -> bool;

/// Calls `chrono::NaiveDate::parse_from_str`; whether it succeeds is named by
/// `chrono_parses_date`.  On a text shaped YYYY-MM-DD under the format
/// `%Y-%m-%d`, chrono reads the four-digit year (0000 included), refuses a
/// month outside 1 to 12 or a day outside 1 to 31 (`Parsed::set_month`,
/// `set_day`), and then builds the date with `NaiveDate::from_ymd_opt`, which
/// refuses a day past the end of the month in the proleptic Gregorian
/// calendar: so it succeeds exactly on a calendar date.
#[verifier::external_body]
pub(crate) fn parse_naive_date(s: &str, fmt: &str) -> (res: Result<chrono::NaiveDate, chrono::ParseError>)
    ensures
        res is Ok <==> chrono_parses_date(s@, fmt@),
        fmt@ == "%Y-%m-%d"@ && is_ymd_shaped(s@) ==> (res is Ok <==> is_calendar_date(s@)),
{
    chrono::NaiveDate::parse_from_str(s, fmt)
}

/// A decimal digit.
pub open spec fn is_digit(c: char) -> bool {
    '0' <= c && c <= '9'
}

/// The text has the form YYYY-MM-DD: ten characters, hyphens as the fifth
/// and the eighth, decimal digits elsewhere.
pub open spec fn is_ymd_shaped(s: Seq<char>) -> bool {
    &&& s.len() == 10
    &&& forall|i: int|
        0 <= i < 10 ==> if i == 4 || i == 7 {
            #[trigger] s[i] == '-'
        } else {
            is_digit(s[i])
        }
}

/// The value of a decimal digit.
pub open spec fn digit_value(c: char) -> int {
    c as int - '0' as int
}

/// The year of a YYYY-MM-DD text.
pub open spec fn ymd_year(s: Seq<char>) -> int {
    1000 * digit_value(s[0]) + 100 * digit_value(s[1]) + 10 * digit_value(s[2]) + digit_value(s[3])
}

/// The month of a YYYY-MM-DD text.
pub open spec fn ymd_month(s: Seq<char>) -> int {
    10 * digit_value(s[5]) + digit_value(s[6])
}

/// The day of a YYYY-MM-DD text.
pub open spec fn ymd_day(s: Seq<char>) -> int {
    10 * digit_value(s[8]) + digit_value(s[9])
}

/// A leap year of the proleptic Gregorian calendar.
pub open spec fn is_leap_year(year: int) -> bool {
    year % 4 == 0 && (year % 100 != 0 || year % 400 == 0)
}

/// The number of days of a month (1 to 12) of a year.
pub open spec fn days_in_month(year: int, month: int) -> int {
    if month == 2 {
        if is_leap_year(year) {
            29
        } else {
            28
        }
    } else if month == 4 || month == 6 || month == 9 || month == 11 {
        30
    } else {
        31
    }
}

/// A YYYY-MM-DD text names a calendar date: a month from 1 to 12 and a day
/// from 1 to the length of that month.
pub open spec fn is_calendar_date(s: Seq<char>) -> bool {
    &&& 1 <= ymd_month(s) <= 12
    &&& 1 <= ymd_day(s) <= days_in_month(ymd_year(s), ymd_month(s))
}

/// A date is valid when it is written as YYYY-MM-DD (four-digit year,
/// two-digit month and day) and names a real date of the proleptic
/// Gregorian calendar (leap years included); chrono checks the calendar.
pub open spec fn is_valid_date(date: Seq<char>) -> bool {
    is_ymd_shaped(date) && is_calendar_date(date)
}

/// Decides `is_ymd_shaped(s@)`.
pub fn ymd_shaped(s: &str) -> (res: bool)
    ensures
        res == is_ymd_shaped(s@),
{
    if s.unicode_len() != 10 {
        return false;
    }
    let mut i: usize = 0;
    while i < 10
        invariant
            s@.len() == 10,
            i <= 10,
            forall|j: int|
                0 <= j < i ==> if j == 4 || j == 7 {
                    #[trigger] s@[j] == '-'
                } else {
                    is_digit(s@[j])
                },
        decreases 10 - i,
    {
        let c = s.get_char(i);
        if i == 4 || i == 7 {
            if c != '-' {
                return false;
            }
        } else if !('0' <= c && c <= '9') {
            return false;
        }
        i = i + 1;
    }
    true
}

/// The detail of the error reported for an invalid date.
pub open spec fn invalid_date_detail(date: Seq<char>) -> Seq<char> {
    "'"@ + date + "' is not a valid date — expected YYYY-MM-DD (e.g. 2024-01-15)"@
}

/// The outcome of checking `date`, given whether chrono could parse it.
pub fn date_check_outcome(date: &str, parsed: bool) -> (res: Result<(), InvestmentError>)
    ensures
        parsed ==> res is Ok,
        !parsed ==> (res matches Err(InvestmentError::InvalidDate(msg)) && msg@
            == invalid_date_detail(date@)),
{
    if parsed {
        Ok(())
    } else {
        let msg = String::from_str("'").concat(date).concat(
            "' is not a valid date — expected YYYY-MM-DD (e.g. 2024-01-15)",
        );
        Err(InvestmentError::InvalidDate(msg))
    }
}

/// Validates that `date` is written as YYYY-MM-DD and is a real calendar
/// date; chrono is asked only about a text of that form.
pub fn validate_date(date: &str) -> (res: Result<(), InvestmentError>)
    ensures
        res is Ok <==> is_valid_date(date@),
        res matches Err(e) ==> e matches InvestmentError::InvalidDate(msg) && msg@
            == invalid_date_detail(date@),
{
    let shaped = ymd_shaped(date);
    let parsed = if shaped {
        parse_naive_date(date, "%Y-%m-%d").is_ok()
    } else {
        false
    };
    proof {
        reveal_strlit("%Y-%m-%d");
    }
    date_check_outcome(date, parsed)
}

// ── Amounts ──────────────────────────────────────────────────────────────────

/// Where a number lies relative to zero.  `Unordered` is for a value that
/// compares neither below, at nor above zero (a NaN).
#[derive(Debug, Clone, Copy, PartialEq, Eq, Structural)]
pub enum AmountSign {
    Negative,
    Zero,
    Positive,
    Unordered,
}

impl AmountSign {
    /// The number is less than or equal to zero.
    pub open spec fn at_most_zero(self) -> bool {
        self is Negative || self is Zero
    }
}

fn at_most_zero(sign: AmountSign) -> (r: bool)
    ensures
        r == sign.at_most_zero(),
{
    match sign {
        AmountSign::Negative => true,
        AmountSign::Zero => true,
        _ => false,
    }
}

// ── Dated entries ────────────────────────────────────────────────────────────

/// A record of a price (or total value) at a date.
#[derive(Debug)]
pub struct PriceEntry<M> {
    pub date: String,
    pub price: M,
    pub notes: Option<String>,
}

/// A dividend payment received at a date.
#[derive(Debug)]
pub struct DividendEntry<M> {
    pub date: String,
    pub amount: M,
    pub notes: Option<String>,
}

fn clone_optional_text(t: &Option<String>) -> (res: Option<String>)
    ensures
        res == *t,
{
    match t {
        Some(s) => Some(s.clone()),
        None => None,
    }
}

impl<M: Copy> Clone for PriceEntry<M> {
    fn clone(&self) -> (res: Self)
        ensures
            res == *self,
    {
        PriceEntry { date: self.date.clone(), price: self.price, notes: clone_optional_text(&self.notes) }
    }
}

impl<M: Copy> Clone for DividendEntry<M> {
    fn clone(&self) -> (res: Self)
        ensures
            res == *self,
    {
        DividendEntry {
            date: self.date.clone(),
            amount: self.amount,
            notes: clone_optional_text(&self.notes),
        }
    }
}

/// Something that carries a date.
pub trait Dated {
    spec fn date_text(&self) -> Seq<char>;

    fn date_str(&self) -> (r: &str)
        ensures
            r@ == self.date_text(),
    ;
}

impl<M> Dated for PriceEntry<M> {
    open spec fn date_text(&self) -> Seq<char> {
        self.date@
    }

    fn date_str(&self) -> (r: &str) {
        self.date.as_str()
    }
}

impl<M> Dated for DividendEntry<M> {
    open spec fn date_text(&self) -> Seq<char> {
        self.date@
    }

    fn date_str(&self) -> (r: &str) {
        self.date.as_str()
    }
}

/// Inserts `x` into `r` after every leading entry whose date is not later
/// than `x`'s.
pub open spec fn insert_by_date<T: Dated>(r: Seq<T>, x: T) -> Seq<T>
    decreases r.len(),
{
    if r.len() == 0 {
        seq![x]
    } else if text_le(r[0].date_text(), x.date_text()) {
        seq![r[0]] + insert_by_date(r.drop_first(), x)
    } else {
        seq![x] + r
    }
}

/// The entries of `s` in date order; entries with equal dates keep their
/// relative order (a stable sort by date).
pub open spec fn sorted_by_date<T: Dated>(s: Seq<T>) -> Seq<T>
    decreases s.len(),
{
    if s.len() == 0 {
        s
    } else {
        insert_by_date(sorted_by_date(s.drop_last()), s.last())
    }
}

/// No entry is dated later than an entry that follows it.
pub open spec fn is_date_ordered<T: Dated>(s: Seq<T>) -> bool {
    forall|i: int, j: int|
        0 <= i < j < s.len() ==> text_le(#[trigger] s[i].date_text(), #[trigger] s[j].date_text())
}

proof fn lemma_insert_at<T: Dated>(r: Seq<T>, x: T, p: int)
    requires
        0 <= p <= r.len(),
        forall|k: int| 0 <= k < p ==> text_le(#[trigger] r[k].date_text(), x.date_text()),
        p == r.len() || !text_le(r[p].date_text(), x.date_text()),
    ensures
        insert_by_date(r, x) =~= r.take(p) + seq![x] + r.skip(p),
    decreases r.len(),
{
    if r.len() == 0 {
    } else if p == 0 {
        assert(r.skip(0) =~= r);
    } else {
        assert(text_le(r[0].date_text(), x.date_text()));
        let r1 = r.drop_first();
        assert forall|k: int| 0 <= k < p - 1 implies text_le(#[trigger] r1[k].date_text(), x.date_text()) by {
            assert(r1[k] == r[k + 1]);
        }
        lemma_insert_at(r1, x, p - 1);
        assert(r.take(p) =~= seq![r[0]] + r1.take(p - 1));
        assert(r.skip(p) =~= r1.skip(p - 1));
    }
}

fn insert_by_date_exec<T: Dated>(r: &mut Vec<T>, x: T)
    ensures
        final(r)@ == insert_by_date(old(r)@, x),
{
    let mut p: usize = 0;
    let n = r.len();
    while p < n && text_le_exec(r[p].date_str(), x.date_str())
        invariant
            n == r@.len(),
            p <= n,
            forall|k: int| 0 <= k < p ==> text_le(#[trigger] r@[k].date_text(), x.date_text()),
        decreases n - p,
    {
        p = p + 1;
    }
    proof {
        lemma_insert_at(r@, x, p as int);
        assert(r@.take(p as int) + seq![x] + r@.skip(p as int) =~= r@.insert(p as int, x));
    }
    r.insert(p, x);
}

/// Sorts entries by date, keeping entries with equal dates in their order.
pub fn sort_by_date<T: Dated>(v: Vec<T>) -> (res: Vec<T>)
    ensures
        res@ == sorted_by_date(v@),
{
    let ghost orig = v@;
    assert(orig.len() == v.len());
    let mut rest = v;
    let mut out: Vec<T> = Vec::new();
    let mut i: usize = 0;
    assert(orig.take(0) =~= Seq::<T>::empty());
    assert(orig.skip(0) =~= orig);
    while rest.len() > 0
        invariant
            i <= orig.len(),
            i + rest@.len() == orig.len(),
            orig.len() <= usize::MAX,
            rest@ == orig.skip(i as int),
            out@ == sorted_by_date(orig.take(i as int)),
        decreases rest.len(),
    {
        let x = rest.remove(0);
        proof {
            assert(orig.take(i as int + 1).drop_last() =~= orig.take(i as int));
            assert(orig.skip(i as int).drop_first() =~= orig.skip(i as int + 1));
        }
        insert_by_date_exec(&mut out, x);
        i = i + 1;
    }
    assert(orig.take(i as int) =~= orig);
    out
}

// ── Laws of the date order ───────────────────────────────────────────────────

/// Inserting an entry keeps every entry and adds exactly the new one.
pub proof fn lemma_insert_by_date_multiset<T: Dated>(r: Seq<T>, x: T)
    ensures
        insert_by_date(r, x).to_multiset() == r.to_multiset().insert(x),
    decreases r.len(),
{
    broadcast use vstd::seq_lib::group_seq_properties;

    if r.len() == 0 {
        assert(seq![x] =~= Seq::<T>::empty().push(x));
    } else if text_le(r[0].date_text(), x.date_text()) {
        lemma_insert_by_date_multiset(r.drop_first(), x);
        assert(r =~= seq![r[0]] + r.drop_first());
        vstd::seq_lib::lemma_multiset_commutative(seq![r[0]], insert_by_date(r.drop_first(), x));
        vstd::seq_lib::lemma_multiset_commutative(seq![r[0]], r.drop_first());
    } else {
        vstd::seq_lib::lemma_multiset_commutative(seq![x], r);
    }
}

/// Sorting by date neither loses nor adds an entry.
pub proof fn lemma_sorted_by_date_multiset<T: Dated>(s: Seq<T>)
    ensures
        sorted_by_date(s).to_multiset() == s.to_multiset(),
    decreases s.len(),
{
    broadcast use vstd::seq_lib::group_seq_properties;

    if s.len() > 0 {
        lemma_sorted_by_date_multiset(s.drop_last());
        lemma_insert_by_date_multiset(sorted_by_date(s.drop_last()), s.last());
        assert(s =~= s.drop_last().push(s.last()));
    }
}

proof fn lemma_insert_by_date_len<T: Dated>(r: Seq<T>, x: T)
    ensures
        insert_by_date(r, x).len() == r.len() + 1,
    decreases r.len(),
{
    if r.len() > 0 && text_le(r[0].date_text(), x.date_text()) {
        lemma_insert_by_date_len(r.drop_first(), x);
    }
}

/// Sorting by date keeps the number of entries.
pub proof fn lemma_sorted_by_date_len<T: Dated>(s: Seq<T>)
    ensures
        sorted_by_date(s).len() == s.len(),
    decreases s.len(),
{
    if s.len() > 0 {
        lemma_sorted_by_date_len(s.drop_last());
        lemma_insert_by_date_len(sorted_by_date(s.drop_last()), s.last());
    }
}

/// The date order on texts is transitive.
pub proof fn lemma_text_le_transitive(a: Seq<char>, b: Seq<char>, c: Seq<char>)
    requires
        text_le(a, b),
        text_le(b, c),
    ensures
        text_le(a, c),
    decreases a.len(),
{
    if a.len() > 0 && b.len() > 0 && c.len() > 0 && a[0] == b[0] && b[0] == c[0] {
        lemma_text_le_transitive(a.drop_first(), b.drop_first(), c.drop_first());
    }
}

/// Inserting into a date-ordered sequence keeps it date-ordered.
pub proof fn lemma_insert_by_date_ordered<T: Dated>(r: Seq<T>, x: T)
    requires
        is_date_ordered(r),
    ensures
        is_date_ordered(insert_by_date(r, x)),
    decreases r.len(),
{
    if r.len() == 0 {
    } else if text_le(r[0].date_text(), x.date_text()) {
        let r1 = r.drop_first();
        assert(is_date_ordered(r1)) by {
            assert forall|i: int, j: int| 0 <= i < j < r1.len() implies text_le(
                #[trigger] r1[i].date_text(),
                #[trigger] r1[j].date_text(),
            ) by {
                assert(r1[i] == r[i + 1] && r1[j] == r[j + 1]);
            }
        }
        lemma_insert_by_date_ordered(r1, x);
        let ins = insert_by_date(r1, x);
        lemma_insert_by_date_multiset(r1, x);
        let res = seq![r[0]] + ins;
        broadcast use vstd::multiset::group_multiset_axioms;
        assert forall|i: int, j: int| 0 <= i < j < res.len() implies text_le(
            #[trigger] res[i].date_text(),
            #[trigger] res[j].date_text(),
        ) by {
            if i == 0 {
                let e = ins[j - 1];
                assert(ins.to_multiset().count(e) > 0) by {
                    vstd::seq_lib::to_multiset_contains(ins, e);
                }
                assert(r1.to_multiset().insert(x).count(e) > 0);
                if e == x {
                } else {
                    assert(r1.to_multiset().count(e) > 0);
                    vstd::seq_lib::to_multiset_contains(r1, e);
                    let k = choose|k: int| 0 <= k < r1.len() && r1[k] == e;
                    assert(r[k + 1] == e);
                    assert(text_le(r[0].date_text(), r[k + 1].date_text()));
                }
            } else {
                assert(res[i] == ins[i - 1] && res[j] == ins[j - 1]);
            }
        }
    } else {
        lemma_text_le_total(r[0].date_text(), x.date_text());
        let res = seq![x] + r;
        assert forall|i: int, j: int| 0 <= i < j < res.len() implies text_le(
            #[trigger] res[i].date_text(),
            #[trigger] res[j].date_text(),
        ) by {
            if i == 0 {
                if j > 1 {
                    assert(text_le(r[0].date_text(), r[j - 1].date_text()));
                    lemma_text_le_transitive(x.date_text(), r[0].date_text(), r[j - 1].date_text());
                }
            } else {
                assert(res[i] == r[i - 1] && res[j] == r[j - 1]);
            }
        }
    }
}

/// A stable sort by date yields a date-ordered sequence.
pub proof fn lemma_sorted_by_date_ordered<T: Dated>(s: Seq<T>)
    ensures
        is_date_ordered(sorted_by_date(s)),
    decreases s.len(),
{
    if s.len() > 0 {
        lemma_sorted_by_date_ordered(s.drop_last());
        lemma_insert_by_date_ordered(sorted_by_date(s.drop_last()), s.last());
    }
}

proof fn lemma_insert_by_date_at_end<T: Dated>(r: Seq<T>, x: T)
    requires
        forall|k: int| 0 <= k < r.len() ==> text_le(#[trigger] r[k].date_text(), x.date_text()),
    ensures
        insert_by_date(r, x) == r.push(x),
{
    lemma_insert_at(r, x, r.len() as int);
    assert(r.take(r.len() as int) =~= r);
    assert(r.skip(r.len() as int) =~= Seq::<T>::empty());
    assert(r + seq![x] + Seq::<T>::empty() =~= r.push(x));
}

/// Sorting an already date-ordered sequence changes nothing: a history that
/// only grew through `add_price_entry` is returned as stored.
pub proof fn law_sorting_ordered_is_identity<T: Dated>(s: Seq<T>)
    requires
        is_date_ordered(s),
    ensures
        sorted_by_date(s) == s,
    decreases s.len(),
{
    if s.len() > 0 {
        let r = s.drop_last();
        assert(is_date_ordered(r)) by {
            assert forall|i: int, j: int| 0 <= i < j < r.len() implies text_le(
                #[trigger] r[i].date_text(),
                #[trigger] r[j].date_text(),
            ) by {
                assert(r[i] == s[i] && r[j] == s[j]);
            }
        }
        law_sorting_ordered_is_identity(r);
        assert forall|k: int| 0 <= k < r.len() implies text_le(
            #[trigger] r[k].date_text(),
            s.last().date_text(),
        ) by {
            assert(r[k] == s[k]);
            assert(text_le(s[k].date_text(), s[s.len() - 1].date_text()));
        }
        lemma_insert_by_date_at_end(r, s.last());
        assert(r.push(s.last()) =~= s);
    }
}

// ── Investments ──────────────────────────────────────────────────────────────

/// An investment position, with its price history and dividend payments.
#[derive(Debug)]
pub struct Investment<M> {
    pub id: String,
    pub investment_type: InvestmentType,
    pub name: String,
    pub symbol: Option<String>,
    pub amount: M,
    pub date: String,
    pub current_value: Option<M>,
    pub notes: Option<String>,
    pub created_at: String,
    pub updated_at: String,
    pub dividend_yield: Option<M>,
    pub dividend_frequency: Option<String>,
    pub price_history: Vec<PriceEntry<M>>,
    pub dividends: Vec<DividendEntry<M>>,
}

/// The detail of the error for an amount that is not above zero.
pub open spec fn amount_not_positive_detail() -> Seq<char> {
    "Amount must be greater than 0"@
}

/// The detail of the error for a price that is not above zero.
pub open spec fn price_not_positive_detail() -> Seq<char> {
    "Price must be greater than 0"@
}

/// The detail of the error for a dividend that is not above zero.
pub open spec fn dividend_not_positive_detail() -> Seq<char> {
    "Dividend amount must be greater than 0"@
}

/// The detail of the error for a negative value.
pub open spec fn negative_value_detail() -> Seq<char> {
    "Value cannot be negative"@
}

/// The entries of `s` dated on or after `cutoff` (all of them without one).
pub open spec fn dated_from<T: Dated>(s: Seq<T>, cutoff: Option<Seq<char>>) -> Seq<T>
    decreases s.len(),
{
    if s.len() == 0 {
        s
    } else {
        let rest = dated_from(s.drop_last(), cutoff);
        match cutoff {
            Some(c) => if text_le(c, s.last().date_text()) {
                rest.push(s.last())
            } else {
                rest
            },
            None => rest.push(s.last()),
        }
    }
}

/// Without a cutoff every entry is kept.
pub proof fn lemma_dated_from_none<T: Dated>(s: Seq<T>)
    ensures
        dated_from(s, None) == s,
    decreases s.len(),
{
    if s.len() > 0 {
        lemma_dated_from_none(s.drop_last());
        assert(s.drop_last().push(s.last()) =~= s);
    }
}

/// Over the whole history (no cutoff) the endpoints are the earliest and the
/// latest entry of the date-ordered history, when it has at least two.
pub proof fn law_endpoints_without_cutoff<M: Copy>(inv: Investment<M>)
    ensures
        ({
            let sorted = sorted_by_date(inv.price_history@);
            inv.spec_price_endpoints(None) == if sorted.len() >= 2 {
                Some((sorted[0].price, sorted.last().price))
            } else {
                None::<(M, M)>
            }
        }),
{
    lemma_dated_from_none(sorted_by_date(inv.price_history@));
}

/// `after` and `res` are what `add_price_entry` makes of `before`: a refused
/// price or date changes nothing and gives its error; otherwise the entry
/// joins the date-ordered history, the current value becomes the latest
/// price, the update time a fresh timestamp, and nothing else changes.
pub open spec fn price_entry_result<M>(
    before: Investment<M>,
    date: String,
    price: M,
    sign: AmountSign,
    notes: Option<String>,
    after: Investment<M>,
    res: Result<(), InvestmentError>,
) -> bool {
    if sign.at_most_zero() {
        res matches Err(InvestmentError::InvalidAmount(m)) && m@ == price_not_positive_detail()
            && after == before
    } else if !is_valid_date(date@) {
        res matches Err(InvestmentError::InvalidDate(m)) && m@ == invalid_date_detail(date@) && after
            == before
    } else {
        &&& res is Ok
        &&& after.price_history@ == sorted_by_date(before.price_history@.push(PriceEntry { date, price, notes }))
        &&& after.current_value == Some(after.price_history@.last().price)
        &&& is_timestamp_text(after.updated_at@)
        &&& after == (Investment {
            price_history: after.price_history,
            current_value: after.current_value,
            updated_at: after.updated_at,
            ..before
        })
    }
}

/// `after` and `res` are what `add_dividend` makes of `before`: a refused
/// amount or date changes nothing and gives its error; otherwise the payment
/// joins the date-ordered payments, the update time becomes a fresh
/// timestamp, and nothing else changes.
pub open spec fn dividend_result<M>(
    before: Investment<M>,
    date: String,
    amount: M,
    sign: AmountSign,
    notes: Option<String>,
    after: Investment<M>,
    res: Result<(), InvestmentError>,
) -> bool {
    if sign.at_most_zero() {
        res matches Err(InvestmentError::InvalidAmount(m)) && m@ == dividend_not_positive_detail()
            && after == before
    } else if !is_valid_date(date@) {
        res matches Err(InvestmentError::InvalidDate(m)) && m@ == invalid_date_detail(date@) && after
            == before
    } else {
        &&& res is Ok
        &&& after.dividends@ == sorted_by_date(before.dividends@.push(DividendEntry { date, amount, notes }))
        &&& is_timestamp_text(after.updated_at@)
        &&& after == (Investment { dividends: after.dividends, updated_at: after.updated_at, ..before })
    }
}

/// The option's text, if any.
pub open spec fn optional_text(t: Option<String>) -> Option<Seq<char>> {
    match t {
        Some(s) => Some(s@),
        None => None,
    }
}

impl<M: Copy> Clone for Investment<M> {
    fn clone(&self) -> (res: Self)
        ensures
            res.id == self.id,
            res.investment_type == self.investment_type,
            res.name == self.name,
            res.symbol == self.symbol,
            res.amount == self.amount,
            res.date == self.date,
            res.current_value == self.current_value,
            res.notes == self.notes,
            res.created_at == self.created_at,
            res.updated_at == self.updated_at,
            res.dividend_yield == self.dividend_yield,
            res.dividend_frequency == self.dividend_frequency,
            res.price_history@ == self.price_history@,
            res.dividends@ == self.dividends@,
    {
        let mut history: Vec<PriceEntry<M>> = Vec::new();
        let mut i: usize = 0;
        while i < self.price_history.len()
            invariant
                i <= self.price_history@.len(),
                history@ == self.price_history@.take(i as int),
            decreases self.price_history@.len() - i,
        {
            history.push(self.price_history[i].clone());
            assert(self.price_history@.take(i as int + 1) =~= self.price_history@.take(i as int).push(
                self.price_history@[i as int],
            ));
            i = i + 1;
        }
        assert(self.price_history@.take(i as int) =~= self.price_history@);
        let mut payments: Vec<DividendEntry<M>> = Vec::new();
        let mut j: usize = 0;
        while j < self.dividends.len()
            invariant
                j <= self.dividends@.len(),
                payments@ == self.dividends@.take(j as int),
            decreases self.dividends@.len() - j,
        {
            payments.push(self.dividends[j].clone());
            assert(self.dividends@.take(j as int + 1) =~= self.dividends@.take(j as int).push(
                self.dividends@[j as int],
            ));
            j = j + 1;
        }
        assert(self.dividends@.take(j as int) =~= self.dividends@);
        Investment {
            id: self.id.clone(),
            investment_type: self.investment_type.clone(),
            name: self.name.clone(),
            symbol: clone_optional_text(&self.symbol),
            amount: self.amount,
            date: self.date.clone(),
            current_value: self.current_value,
            notes: clone_optional_text(&self.notes),
            created_at: self.created_at.clone(),
            updated_at: self.updated_at.clone(),
            dividend_yield: self.dividend_yield,
            dividend_frequency: clone_optional_text(&self.dividend_frequency),
            price_history: history,
            dividends: payments,
        }
    }
}

impl<M: Copy> Investment<M> {
    /// The investment with a new amount and update time.
    pub open spec fn with_amount(self, amount: M, updated_at: String) -> Self {
        Investment { amount, updated_at, ..self }
    }

    /// The investment with a new current value and update time.
    pub open spec fn with_current_value(self, value: M, updated_at: String) -> Self {
        Investment { current_value: Some(value), updated_at, ..self }
    }

    /// The earliest and latest price of the date-ordered price history,
    /// restricted to entries on or after `cutoff`, when at least two remain.
    pub open spec fn spec_price_endpoints(self, cutoff: Option<Seq<char>>) -> Option<(M, M)> {
        let kept = dated_from(sorted_by_date(self.price_history@), cutoff);
        if kept.len() >= 2 {
            Some((kept[0].price, kept.last().price))
        } else {
            None
        }
    }

    /// Creates an investment.  Fails with `InvalidAmount` when the amount is
    /// not above zero (`amount_sign` tells where it lies; a NaN is refused), otherwise with
    /// `InvalidDate` when `date` is not a valid YYYY-MM-DD date.  A new
    /// investment has no price history and no dividends, and its creation and
    /// update times are the same.
    pub fn new(
        id: String,
        investment_type: InvestmentType,
        name: String,
        symbol: Option<String>,
        amount: M,
        amount_sign: AmountSign,
        date: String,
        current_value: Option<M>,
        notes: Option<String>,
        dividend_yield: Option<M>,
        dividend_frequency: Option<String>,
    ) -> (res: Result<Self, InvestmentError>)
        ensures
            !(amount_sign is Positive) ==> (res matches Err(InvestmentError::InvalidAmount(m))
                && m@ == amount_not_positive_detail()),
            amount_sign is Positive && !is_valid_date(date@) ==> (res matches Err(
                InvestmentError::InvalidDate(m),
            ) && m@ == invalid_date_detail(date@)),
            amount_sign is Positive && is_valid_date(date@) ==> (res matches Ok(inv) && inv.id
                == id && inv.investment_type == investment_type && inv.name == name && inv.symbol
                == symbol && inv.amount == amount && inv.date == date && inv.current_value
                == current_value && inv.notes == notes && inv.dividend_yield == dividend_yield
                && inv.dividend_frequency == dividend_frequency && inv.created_at
                == inv.updated_at && is_timestamp_text(inv.created_at@) && inv.price_history@.len() == 0
                && inv.dividends@.len() == 0),
    {
        if amount_sign != AmountSign::Positive {
            return Err(InvestmentError::InvalidAmount(String::from_str("Amount must be greater than 0")));
        }
        validate_date(date.as_str())?;
        let now = now_timestamp();
        Ok(Investment {
            id,
            investment_type,
            name,
            symbol,
            amount,
            date,
            current_value,
            notes,
            created_at: now.clone(),
            updated_at: now,
            dividend_yield,
            dividend_frequency,
            price_history: Vec::new(),
            dividends: Vec::new(),
        })
    }

    /// Sets the invested amount; fails, changing nothing, when it is not above zero.
    pub fn update_amount(&mut self, new_amount: M, sign: AmountSign) -> (res: Result<(), InvestmentError>)
        ensures
            sign.at_most_zero() ==> (res matches Err(InvestmentError::InvalidAmount(m)) && m@
                == amount_not_positive_detail() && *final(self) == *old(self)),
            !sign.at_most_zero() ==> (res is Ok && *final(self) == old(self).with_amount(
                new_amount,
                final(self).updated_at,
            ) && is_timestamp_text(final(self).updated_at@)),
    {
        if at_most_zero(sign) {
            return Err(InvestmentError::InvalidAmount(String::from_str("Amount must be greater than 0")));
        }
        self.amount = new_amount;
        self.updated_at = now_timestamp();
        Ok(())
    }

    /// Sets the current value; fails, changing nothing, when it is negative.
    pub fn update_current_value(&mut self, new_value: M, sign: AmountSign) -> (res: Result<(), InvestmentError>)
        ensures
            sign is Negative ==> (res matches Err(InvestmentError::InvalidAmount(m)) && m@
                == negative_value_detail() && *final(self) == *old(self)),
            !(sign is Negative) ==> (res is Ok && *final(self) == old(self).with_current_value(
                new_value,
                final(self).updated_at,
            ) && is_timestamp_text(final(self).updated_at@)),
    {
        if sign == AmountSign::Negative {
            return Err(InvestmentError::InvalidAmount(String::from_str("Value cannot be negative")));
        }
        self.current_value = Some(new_value);
        self.updated_at = now_timestamp();
        Ok(())
    }

    /// Adds a price entry to the history, keeps the history in date order and
    /// sets the current value to the latest price.  Fails, changing nothing,
    /// when the price is not above zero or the date is invalid.
    pub fn add_price_entry(
        &mut self,
        date: String,
        price: M,
        price_sign: AmountSign,
        notes: Option<String>,
    ) -> (res: Result<(), InvestmentError>)
        ensures
            price_sign.at_most_zero() ==> (res matches Err(InvestmentError::InvalidAmount(m)) && m@
                == price_not_positive_detail() && *final(self) == *old(self)),
            !price_sign.at_most_zero() && !is_valid_date(date@) ==> (res matches Err(
                InvestmentError::InvalidDate(m),
            ) && m@ == invalid_date_detail(date@) && *final(self) == *old(self)),
            !price_sign.at_most_zero() && is_valid_date(date@) ==> {
                &&& res is Ok
                &&& final(self).price_history@ == sorted_by_date(
                    old(self).price_history@.push(PriceEntry { date, price, notes }),
                )
                &&& is_date_ordered(final(self).price_history@)
                &&& final(self).price_history@.to_multiset() == old(self).price_history@.to_multiset().insert(
                    PriceEntry { date, price, notes },
                )
                &&& final(self).current_value == Some(final(self).price_history@.last().price)
                &&& final(self).id == old(self).id
                &&& final(self).investment_type == old(self).investment_type
                &&& final(self).name == old(self).name
                &&& final(self).symbol == old(self).symbol
                &&& final(self).amount == old(self).amount
                &&& final(self).date == old(self).date
                &&& final(self).notes == old(self).notes
                &&& final(self).created_at == old(self).created_at
                &&& is_timestamp_text(final(self).updated_at@)
                &&& final(self).dividend_yield == old(self).dividend_yield
                &&& final(self).dividend_frequency == old(self).dividend_frequency
                &&& final(self).dividends == old(self).dividends
            },
            price_entry_result(*old(self), date, price, price_sign, notes, *final(self), res),
    {
        if at_most_zero(price_sign) {
            return Err(InvestmentError::InvalidAmount(String::from_str("Price must be greater than 0")));
        }
        validate_date(date.as_str())?;
        let ghost entry = PriceEntry { date, price, notes };
        let mut history: Vec<PriceEntry<M>> = Vec::new();
        std::mem::swap(&mut history, &mut self.price_history);
        history.push(PriceEntry { date, price, notes });
        let sorted = sort_by_date(history);
        proof {
            lemma_sorted_by_date_len(old(self).price_history@.push(entry));
            lemma_sorted_by_date_ordered(old(self).price_history@.push(entry));
            lemma_sorted_by_date_multiset(old(self).price_history@.push(entry));
            assert(old(self).price_history@.push(entry).to_multiset() =~= old(self).price_history@.to_multiset().insert(entry)) by {
                broadcast use vstd::seq_lib::group_seq_properties;
            }
        }
        let last_price = sorted[sorted.len() - 1].price;
        self.price_history = sorted;
        self.current_value = Some(last_price);
        self.updated_at = now_timestamp();
        Ok(())
    }

    /// Records a dividend payment, keeping the payments in date order.  Fails,
    /// changing nothing, when the amount is not above zero or the date is
    /// invalid.
    pub fn add_dividend(
        &mut self,
        date: String,
        amount: M,
        amount_sign: AmountSign,
        notes: Option<String>,
    ) -> (res: Result<(), InvestmentError>)
        ensures
            amount_sign.at_most_zero() ==> (res matches Err(InvestmentError::InvalidAmount(m)) && m@
                == dividend_not_positive_detail() && *final(self) == *old(self)),
            !amount_sign.at_most_zero() && !is_valid_date(date@) ==> (res matches Err(
                InvestmentError::InvalidDate(m),
            ) && m@ == invalid_date_detail(date@) && *final(self) == *old(self)),
            !amount_sign.at_most_zero() && is_valid_date(date@) ==> {
                &&& res is Ok
                &&& final(self).dividends@ == sorted_by_date(
                    old(self).dividends@.push(DividendEntry { date, amount, notes }),
                )
                &&& is_date_ordered(final(self).dividends@)
                &&& final(self).dividends@.to_multiset() == old(self).dividends@.to_multiset().insert(
                    DividendEntry { date, amount, notes },
                )
                &&& final(self).id == old(self).id
                &&& final(self).investment_type == old(self).investment_type
                &&& final(self).name == old(self).name
                &&& final(self).symbol == old(self).symbol
                &&& final(self).amount == old(self).amount
                &&& final(self).date == old(self).date
                &&& final(self).current_value == old(self).current_value
                &&& final(self).notes == old(self).notes
                &&& final(self).created_at == old(self).created_at
                &&& is_timestamp_text(final(self).updated_at@)
                &&& final(self).dividend_yield == old(self).dividend_yield
                &&& final(self).dividend_frequency == old(self).dividend_frequency
                &&& final(self).price_history == old(self).price_history
            },
            dividend_result(*old(self), date, amount, amount_sign, notes, *final(self), res),
    {
        if at_most_zero(amount_sign) {
            return Err(
                InvestmentError::InvalidAmount(String::from_str("Dividend amount must be greater than 0")),
            );
        }
        validate_date(date.as_str())?;
        let ghost payment = DividendEntry { date, amount, notes };
        let mut payments: Vec<DividendEntry<M>> = Vec::new();
        std::mem::swap(&mut payments, &mut self.dividends);
        payments.push(DividendEntry { date, amount, notes });
        proof {
            lemma_sorted_by_date_ordered(old(self).dividends@.push(payment));
            lemma_sorted_by_date_multiset(old(self).dividends@.push(payment));
            assert(old(self).dividends@.push(payment).to_multiset() =~= old(self).dividends@.to_multiset().insert(payment)) by {
                broadcast use vstd::seq_lib::group_seq_properties;
            }
        }
        self.dividends = sort_by_date(payments);
        self.updated_at = now_timestamp();
        Ok(())
    }

    /// Returns copies of the price entries in date order.
    pub fn sorted_price_history(&self) -> (res: Vec<PriceEntry<M>>)
        ensures
            res@ == sorted_by_date(self.price_history@),
    {
        let mut copies: Vec<PriceEntry<M>> = Vec::new();
        let n = self.price_history.len();
        let mut i: usize = 0;
        while i < n
            invariant
                n == self.price_history@.len(),
                i <= n,
                copies@ == self.price_history@.take(i as int),
            decreases n - i,
        {
            copies.push(self.price_history[i].clone());
            assert(self.price_history@.take(i as int + 1) =~= self.price_history@.take(i as int).push(
                self.price_history@[i as int],
            ));
            i = i + 1;
        }
        assert(self.price_history@.take(n as int) =~= self.price_history@);
        sort_by_date(copies)
    }

    /// The earliest and latest price of the date-ordered history, counting only
    /// entries dated on or after `cutoff` (every entry without one), when at
    /// least two entries count.  These are the two prices a time-weighted
    /// return compares.
    pub fn price_endpoints(&self, cutoff: &Option<String>) -> (res: Option<(M, M)>)
        ensures
            res == self.spec_price_endpoints(optional_text(*cutoff)),
    {
        let sorted = self.sorted_price_history();
        let ghost c = optional_text(*cutoff);
        let n = sorted.len();
        let mut kept: Vec<PriceEntry<M>> = Vec::new();
        let mut i: usize = 0;
        assert(sorted@.take(0) =~= Seq::<PriceEntry<M>>::empty());
        while i < n
            invariant
                n == sorted@.len(),
                i <= n,
                kept@ == dated_from(sorted@.take(i as int), c),
                c == optional_text(*cutoff),
            decreases n - i,
        {
            let keep = match cutoff {
                Some(cut) => text_le_exec(cut.as_str(), sorted[i].date.as_str()),
                None => true,
            };
            proof {
                assert(sorted@.take(i as int + 1).drop_last() =~= sorted@.take(i as int));
            }
            if keep {
                kept.push(sorted[i].clone());
            }
            i = i + 1;
        }
        assert(sorted@.take(n as int) =~= sorted@);
        if kept.len() >= 2 {
            Some((kept[0].price, kept[kept.len() - 1].price))
        } else {
            None
        }
    }
}

} // verus!

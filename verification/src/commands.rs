//! Decisions made by the command-line and interactive commands.
use vstd::prelude::*;
use vstd::string::StrSliceExecFns;
use crate::display::is_timestamp_text;
use crate::error::InvestmentError;
use crate::models::{
    amount_not_positive_detail, chrono_parses_date, invalid_date_detail, is_valid_date, names_type,
    law_display_then_parse, lemma_display_is_ascii, optional_text, parse_naive_date, is_type_keyword,
    negative_value_detail, AmountSign, DividendEntry, Investment, InvestmentType, PriceEntry,
};
use crate::text::{ascii_lower, is_ascii_text, lowercase_text};
use crate::storage::{
    has_id, ids_distinct, index_of_id, lemma_index_of_id, lemma_index_of_id_found, saved_as,
};
use crate::text::text_eq;

verus! {

/// The `config` subcommands.
#[derive(Debug, Clone, PartialEq)]
pub enum ConfigCommands {
    /// Show current configuration
    Show,
    /// Set a configuration value
    SetValue { key: String, value: String },
    /// Reset configuration to defaults
    Reset,
}

// ── Interactive menu ─────────────────────────────────────────────────────────

/// The actions offered by the interactive menu.
#[derive(Debug, Clone, Copy, PartialEq, Eq, Structural)]
pub enum MenuAction {
    AddInvestment,
    ListInvestments,
    UpdateInvestment,
    RecordPrice,
    RecordDividend,
    DeleteInvestment,
    Quit,
}

/// The menu in the order it is shown.
pub open spec fn menu_order() -> Seq<MenuAction> {
    seq![
        MenuAction::AddInvestment,
        MenuAction::ListInvestments,
        MenuAction::UpdateInvestment,
        MenuAction::RecordPrice,
        MenuAction::RecordDividend,
        MenuAction::DeleteInvestment,
        MenuAction::Quit,
    ]
}

impl MenuAction {
    /// The text of the action's menu entry.
    pub open spec fn spec_label(&self) -> Seq<char> {
        match self {
            MenuAction::AddInvestment => "➕  Add a new investment"@,
            MenuAction::ListInvestments => "📋  List investments"@,
            MenuAction::UpdateInvestment => "✏️   Update an investment"@,
            MenuAction::RecordPrice => "💹  Record a price entry"@,
            MenuAction::RecordDividend => "💰  Record a dividend payment"@,
            MenuAction::DeleteInvestment => "🗑️   Delete an investment"@,
            MenuAction::Quit => "🚪  Quit"@,
        }
    }

    /// The text of the action's menu entry.
    pub fn label(&self) -> (res: &'static str)
        ensures
            res@ == self.spec_label(),
    {
        match self {
            MenuAction::AddInvestment => "➕  Add a new investment",
            MenuAction::ListInvestments => "📋  List investments",
            MenuAction::UpdateInvestment => "✏️   Update an investment",
            MenuAction::RecordPrice => "💹  Record a price entry",
            MenuAction::RecordDividend => "💰  Record a dividend payment",
            MenuAction::DeleteInvestment => "🗑️   Delete an investment",
            MenuAction::Quit => "🚪  Quit",
        }
    }

    /// Every action, in menu order.
    pub fn all() -> (res: Vec<MenuAction>)
        ensures
            res@ == menu_order(),
    {
        let res = vec![
            MenuAction::AddInvestment,
            MenuAction::ListInvestments,
            MenuAction::UpdateInvestment,
            MenuAction::RecordPrice,
            MenuAction::RecordDividend,
            MenuAction::DeleteInvestment,
            MenuAction::Quit,
        ];
        assert(res@ =~= menu_order());
        res
    }

    /// The menu entries' texts, in menu order.
    pub fn labels() -> (res: Vec<&'static str>)
        ensures
            res@.len() == menu_order().len(),
            forall|i: int| 0 <= i < res@.len() ==> #[trigger] res@[i]@ == menu_order()[i].spec_label(),
    {
        let actions = Self::all();
        let mut res: Vec<&'static str> = Vec::new();
        let mut i: usize = 0;
        while i < actions.len()
            invariant
                actions@ == menu_order(),
                i <= actions@.len(),
                res@.len() == i,
                forall|k: int| 0 <= k < i ==> #[trigger] res@[k]@ == menu_order()[k].spec_label(),
            decreases actions@.len() - i,
        {
            res.push(actions[i].label());
            i = i + 1;
        }
        res
    }
}

/// Each menu entry names the action it runs: the texts are those of the
/// interactive menu, in menu order, and no two entries read alike.
pub proof fn law_menu_labels_name_their_actions(a: MenuAction, b: MenuAction)
    ensures
        MenuAction::AddInvestment.spec_label() == "➕  Add a new investment"@,
        MenuAction::ListInvestments.spec_label() == "📋  List investments"@,
        MenuAction::UpdateInvestment.spec_label() == "✏️   Update an investment"@,
        MenuAction::RecordPrice.spec_label() == "💹  Record a price entry"@,
        MenuAction::RecordDividend.spec_label() == "💰  Record a dividend payment"@,
        MenuAction::DeleteInvestment.spec_label() == "🗑️   Delete an investment"@,
        MenuAction::Quit.spec_label() == "🚪  Quit"@,
        a.spec_label() == b.spec_label() ==> a == b,
        menu_order().len() == 7,
        menu_order()[0] == MenuAction::AddInvestment,
        menu_order()[1] == MenuAction::ListInvestments,
        menu_order()[2] == MenuAction::UpdateInvestment,
        menu_order()[3] == MenuAction::RecordPrice,
        menu_order()[4] == MenuAction::RecordDividend,
        menu_order()[5] == MenuAction::DeleteInvestment,
        menu_order()[6] == MenuAction::Quit,
{
    reveal_strlit("➕  Add a new investment");
    reveal_strlit("📋  List investments");
    reveal_strlit("✏️   Update an investment");
    reveal_strlit("💹  Record a price entry");
    reveal_strlit("💰  Record a dividend payment");
    reveal_strlit("🗑️   Delete an investment");
    reveal_strlit("🚪  Quit");
    if a != b {
        assert(a.spec_label()[0] != b.spec_label()[0]);
    }
}

/// The names the interactive type menu shows, in order; the last entry,
/// "Other", asks for a custom name.
pub open spec fn type_menu_names() -> Seq<Seq<char>> {
    seq!["Stock"@, "ETF"@, "Mutual Fund"@, "Deposit"@, "Bond"@, "Crypto"@, "Other"@]
}

/// The type chosen at a position of the type menu is the type whose name
/// the menu shows there; past the built-in types a custom name is asked for.
pub proof fn law_menu_type_matches_its_name(i: usize)
    ensures
        i < 6 ==> match spec_menu_type(i) {
            Some(t) => !(t is Other) && t.spec_display() == type_menu_names()[i as int],
            None => false,
        },
        i >= 6 ==> spec_menu_type(i) is None,
{
    reveal_strlit("Stock");
    reveal_strlit("ETF");
    reveal_strlit("Mutual Fund");
    reveal_strlit("Deposit");
    reveal_strlit("Bond");
    reveal_strlit("Crypto");
}

/// The investment type offered at a position of the interactive type menu
/// (Stock, ETF, Mutual Fund, Deposit, Bond, Crypto, Other); `None` for
/// "Other", whose name the user types in.
pub open spec fn spec_menu_type(index: usize) -> Option<InvestmentType> {
    if index == 0 {
        Some(InvestmentType::Stock)
    } else if index == 1 {
        Some(InvestmentType::ETF)
    } else if index == 2 {
        Some(InvestmentType::MutualFund)
    } else if index == 3 {
        Some(InvestmentType::Deposit)
    } else if index == 4 {
        Some(InvestmentType::Bond)
    } else if index == 5 {
        Some(InvestmentType::Crypto)
    } else {
        None
    }
}

/// The investment type chosen at `index` of the interactive type menu, or
/// `None` when a custom name is to be asked for.
pub fn menu_investment_type(index: usize) -> (res: Option<InvestmentType>)
    ensures
        res == spec_menu_type(index),
{
    if index == 0 {
        Some(InvestmentType::Stock)
    } else if index == 1 {
        Some(InvestmentType::ETF)
    } else if index == 2 {
        Some(InvestmentType::MutualFund)
    } else if index == 3 {
        Some(InvestmentType::Deposit)
    } else if index == 4 {
        Some(InvestmentType::Bond)
    } else if index == 5 {
        Some(InvestmentType::Crypto)
    } else {
        None
    }
}

/// The shape check the interactive prompts apply to dates: ten bytes long,
/// with a hyphen as the fifth and the eighth character.
pub open spec fn spec_date_shaped(s: Seq<char>) -> bool {
    &&& vstd::utf8::encode_utf8(s).len() == 10
    &&& s.len() > 7
    &&& s[4] == '-'
    &&& s[7] == '-'
}

/// Whether `s` looks like a YYYY-MM-DD date (ten bytes, hyphens at the
/// fifth and eighth character); the calendar is not checked.
pub fn is_date_shaped(s: &str) -> (res: bool)
    ensures
        res == spec_date_shaped(s@),
{
    if s.as_bytes().len() != 10 {
        return false;
    }
    let n = s.unicode_len();
    if n <= 7 {
        return false;
    }
    s.get_char(4) == '-' && s.get_char(7) == '-'
}

// ── Performance report ranges ────────────────────────────────────────────────

/// The number of days a report range covers: `1m` 30, `3m` 90, `6m` 180,
/// `1y` 365; any other range (such as `all`) has no cutoff.
pub open spec fn spec_range_days(range: Seq<char>) -> Option<u64> {
    if range == "1m"@ {
        Some(30)
    } else if range == "3m"@ {
        Some(90)
    } else if range == "6m"@ {
        Some(180)
    } else if range == "1y"@ {
        Some(365)
    } else {
        None
    }
}

/// The number of days a report range covers, if it has a cutoff.
pub fn range_days(range: &str) -> (res: Option<u64>)
    ensures
        res == spec_range_days(range@),
{
    if text_eq(range, "1m") {
        Some(30)
    } else if text_eq(range, "3m") {
        Some(90)
    } else if text_eq(range, "6m") {
        Some(180)
    } else if text_eq(range, "1y") {
        Some(365)
    } else {
        None
    }
}

/// What chrono gives for the date `days` days before the date `today`:
/// `NaiveDate::parse_from_str(today, "%Y-%m-%d")`, then
/// `checked_sub_days(Days::new(days))`, written with `format("%Y-%m-%d")`;
/// `None` when chrono cannot count that far back.
pub uninterp spec fn date_days_before(today: Seq<char>, days: nat) -> Option<Seq<char>>;

/// The year of a YYYY-MM-DD text is not 0000.
pub open spec fn year_after_zero(date: Seq<char>) -> bool {
    !(date[0] == '0' && date[1] == '0' && date[2] == '0' && date[3] == '0')
}

/// The date `days` days before `today`, by chrono: `parse_from_str` with
/// `%Y-%m-%d`, `checked_sub_days`, then `format("%Y-%m-%d")`; the result is
/// named by `date_days_before`.  For a valid date of year 1 to 9999 the
/// subtraction of at most a year stays far inside chrono's range (it fails
/// only before year -262143) and the earlier date has a year of 0 to 9999,
/// which `%Y` writes with four digits and two-digit month and day: a valid
/// YYYY-MM-DD date.
#[verifier::external_body]
fn days_before(today: &str, days: u64) -> (res: Option<String>)
    requires
        chrono_parses_date(today@, "%Y-%m-%d"@),
        days <= 365,
    ensures
        optional_text(res) == date_days_before(today@, days as nat),
        is_valid_date(today@) && year_after_zero(today@) ==> (res is Some && is_valid_date(res.unwrap()@)),
{
    match chrono::NaiveDate::parse_from_str(today, "%Y-%m-%d") {
        Ok(date) => match date.checked_sub_days(chrono::Days::new(days)) {
            Some(earlier) => Some(earlier.format("%Y-%m-%d").to_string()),
            None => None,
        },
        Err(_) => None,
    }
}

/// Today's local date: chrono's `Local::now().date_naive()` written with
/// `format("%Y-%m-%d")`.  Which date it is depends on the clock; what holds
/// of every outcome: chrono reads the text back with the same format (`%Y`
/// writes a sign for a year outside 0 to 9999 and reads it again); the date
/// is no earlier than 1969-12-31, since `Utc::now` is at or after the Unix
/// epoch (it panics on a clock set before it), so counting up to a year back
/// succeeds; and a ten-character text is a valid YYYY-MM-DD date of a year
/// after 0000.
#[verifier::external_body]
fn local_today() -> (res: String)
    ensures
        chrono_parses_date(res@, "%Y-%m-%d"@),
        forall|d: nat| d <= 365 ==> #[trigger] date_days_before(res@, d) is Some,
        res@.len() == 10 ==> is_valid_date(res@) && year_after_zero(res@),
{
    chrono::Local::now().date_naive().format("%Y-%m-%d").to_string()
}

/// The first date a report range covers, counted back from the date
/// `today`: the date 30 (`1m`), 90 (`3m`), 180 (`6m`) or 365 (`1y`) days
/// before it, as chrono counts.  `None` for a range without a cutoff (such
/// as `all`), and when chrono cannot read `today` as a date.  From a valid
/// YYYY-MM-DD date of year 1 or later, the cutoff is a valid date too.
pub fn range_cutoff_from(today: &str, range: &str) -> (res: Option<String>)
    ensures
        match spec_range_days(range@) {
            Some(d) => if chrono_parses_date(today@, "%Y-%m-%d"@) {
                optional_text(res) == date_days_before(today@, d as nat) && (is_valid_date(today@)
                    && year_after_zero(today@) ==> (res is Some && is_valid_date(res.unwrap()@)))
            } else {
                res is None
            },
            None => res is None,
        },
{
    match range_days(range) {
        None => None,
        Some(days) => {
            let parsed = parse_naive_date(today, "%Y-%m-%d");
            if parsed.is_err() {
                return None;
            }
            days_before(today, days)
        },
    }
}

/// The first date a report range covers, counted back from today's local
/// date (see `range_cutoff_from`): for `1m`, `3m`, `6m` and `1y` a date
/// always comes back, the range's number of days before today as chrono
/// counts (and a valid YYYY-MM-DD date whenever today's date has a
/// four-digit year); `None` for a range without a cutoff.
pub fn range_cutoff(range: &str) -> (res: Option<String>)
    ensures
        match spec_range_days(range@) {
            Some(d) => match res {
                Some(c) => exists|t: Seq<char>|
                    chrono_parses_date(t, "%Y-%m-%d"@) && (forall|e: nat|
                        e <= 365 ==> #[trigger] date_days_before(t, e) is Some) && (t.len() == 10
                        ==> is_valid_date(t) && year_after_zero(t)) && #[trigger] date_days_before(
                        t,
                        d as nat,
                    ) == Some(c@) && (t.len() == 10 ==> is_valid_date(c@)),
                None => false,
            },
            None => res is None,
        },
{
    let today = local_today();
    let res = range_cutoff_from(today.as_str(), range);
    proof {
        if let Some(d) = spec_range_days(range@) {
            assert(date_days_before(today@, d as nat) is Some);
        }
    }
    res
}

/// The report ranges count back the documented numbers of days: a month is
/// 30 days, three months 90, six months 180 and a year 365; any other range
/// (such as `all`) has no cutoff; and a longer range reaches further back.
pub proof fn law_range_days_table(range: Seq<char>)
    ensures
        spec_range_days("1m"@) == Some(30u64),
        spec_range_days("3m"@) == Some(90u64),
        spec_range_days("6m"@) == Some(180u64),
        spec_range_days("1y"@) == Some(365u64),
        range != "1m"@ && range != "3m"@ && range != "6m"@ && range != "1y"@ ==> spec_range_days(
            range,
        ) is None,
        spec_range_days(range) matches Some(d) ==> 30 <= d <= 365,
{
    reveal_strlit("1m");
    reveal_strlit("3m");
    reveal_strlit("6m");
    reveal_strlit("1y");
    assert("3m"@[0] != "1m"@[0]);
    assert("6m"@[0] != "1m"@[0] && "6m"@[0] != "3m"@[0]);
    assert("1y"@[1] != "1m"@[1] && "1y"@[0] != "3m"@[0] && "1y"@[0] != "6m"@[0]);
}

// ── Adding ───────────────────────────────────────────────────────────────────

/// The investment an `add` command records, before storage gives it an ID:
/// its type is parsed from `investment_type` as `InvestmentType::parse_name`
/// does, and its current value is the amount invested (a new investment is
/// worth what was paid for it until a price is recorded).  Fails as
/// `Investment::new` does on a refused amount or an invalid date.
pub fn investment_for_add<M: Copy>(
    investment_type: &str,
    name: String,
    amount: M,
    amount_sign: AmountSign,
    date: String,
    symbol: Option<String>,
    notes: Option<String>,
    dividend_yield: Option<M>,
    dividend_frequency: Option<String>,
) -> (res: Result<Investment<M>, InvestmentError>)
    ensures
        !(amount_sign is Positive) ==> (res matches Err(InvestmentError::InvalidAmount(m)) && m@
            == amount_not_positive_detail()),
        amount_sign is Positive && !is_valid_date(date@) ==> (res matches Err(
            InvestmentError::InvalidDate(m),
        ) && m@ == invalid_date_detail(date@)),
        amount_sign is Positive && is_valid_date(date@) ==> (res matches Ok(inv) && inv.id@
            == Seq::<char>::empty() && names_type(
            inv.investment_type,
            lowercase_text(investment_type@),
        ) && inv.name == name && inv.symbol == symbol && inv.amount == amount && inv.date == date
            && inv.current_value == Some(amount) && inv.notes == notes && inv.dividend_yield
            == dividend_yield && inv.dividend_frequency == dividend_frequency && inv.created_at
            == inv.updated_at && is_timestamp_text(inv.created_at@) && inv.price_history@.len() == 0
            && inv.dividends@.len() == 0),
{
    let inv_type = InvestmentType::parse_name(investment_type);
    Investment::new(
        String::new(),
        inv_type,
        name,
        symbol,
        amount,
        amount_sign,
        date,
        Some(amount),
        notes,
        dividend_yield,
        dividend_frequency,
    )
}

// ── Importing a row ──────────────────────────────────────────────────────────

/// `inv` is the record an import makes of a row with these fields: the
/// fields as given, the type parsed from its name as `parse_name` does, no
/// price history or dividends, and the row's creation and update times where
/// it gives them (otherwise the time of the import).
pub open spec fn imported_as<M>(
    inv: Investment<M>,
    id: String,
    type_text: Seq<char>,
    name: String,
    symbol: Option<String>,
    amount: M,
    date: String,
    current_value: Option<M>,
    notes: Option<String>,
    dividend_yield: Option<M>,
    dividend_frequency: Option<String>,
    created_at: Option<String>,
    updated_at: Option<String>,
) -> bool {
    &&& inv.id == id
    &&& names_type(inv.investment_type, lowercase_text(type_text))
    &&& is_ascii_text(type_text) ==> names_type(inv.investment_type, ascii_lower(type_text))
    &&& inv.name == name && inv.symbol == symbol && inv.amount == amount && inv.date == date
    &&& inv.current_value == current_value && inv.notes == notes
    &&& inv.dividend_yield == dividend_yield && inv.dividend_frequency == dividend_frequency
    &&& match created_at {
        Some(c) => inv.created_at == c,
        None => is_timestamp_text(inv.created_at@),
    }
    &&& match updated_at {
        Some(u) => inv.updated_at == u,
        None => is_timestamp_text(inv.updated_at@),
    }
    &&& inv.price_history@.len() == 0 && inv.dividends@.len() == 0
}

/// The investment a row of an imported CSV file describes.  It is checked
/// as `Investment::new` checks a new one (an amount above zero, a valid
/// YYYY-MM-DD date); the creation and update times the row carries are kept.
pub fn imported_investment<M: Copy>(
    id: String,
    investment_type: &str,
    name: String,
    symbol: Option<String>,
    amount: M,
    amount_sign: AmountSign,
    date: String,
    current_value: Option<M>,
    notes: Option<String>,
    dividend_yield: Option<M>,
    dividend_frequency: Option<String>,
    created_at: Option<String>,
    updated_at: Option<String>,
) -> (res: Result<Investment<M>, InvestmentError>)
    ensures
        !(amount_sign is Positive) ==> (res matches Err(InvestmentError::InvalidAmount(m)) && m@
            == amount_not_positive_detail()),
        amount_sign is Positive && !is_valid_date(date@) ==> (res matches Err(
            InvestmentError::InvalidDate(m),
        ) && m@ == invalid_date_detail(date@)),
        amount_sign is Positive && is_valid_date(date@) ==> (res matches Ok(inv) && imported_as(
            inv,
            id,
            investment_type@,
            name,
            symbol,
            amount,
            date,
            current_value,
            notes,
            dividend_yield,
            dividend_frequency,
            created_at,
            updated_at,
        )),
{
    let inv_type = InvestmentType::parse_name(investment_type);
    let made = Investment::new(
        id,
        inv_type,
        name,
        symbol,
        amount,
        amount_sign,
        date,
        current_value,
        notes,
        dividend_yield,
        dividend_frequency,
    );
    match made {
        Err(e) => Err(e),
        Ok(mut inv) => {
            if let Some(c) = created_at {
                inv.created_at = c;
            }
            if let Some(u) = updated_at {
                inv.updated_at = u;
            }
            Ok(inv)
        },
    }
}

/// Exporting an investment's row and importing it again gives the record
/// back, apart from its histories (which the export rows restore): every
/// field, the creation and update times included, for an investment of a
/// built-in type or of a custom type named in lower-case ASCII that is no
/// keyword.
pub proof fn law_export_import_keeps_record<M>(inv: Investment<M>, back: Investment<M>)
    requires
        match inv.investment_type {
            InvestmentType::Other(s) => is_ascii_text(s@) && ascii_lower(s@) == s@ && !is_type_keyword(
                s@,
            ),
            _ => true,
        },
        imported_as(
            back,
            inv.id,
            inv.investment_type.spec_display(),
            inv.name,
            inv.symbol,
            inv.amount,
            inv.date,
            inv.current_value,
            inv.notes,
            inv.dividend_yield,
            inv.dividend_frequency,
            Some(inv.created_at),
            Some(inv.updated_at),
        ),
    ensures
        back == (Investment {
            investment_type: back.investment_type,
            price_history: back.price_history,
            dividends: back.dividends,
            ..inv
        }),
        match inv.investment_type {
            InvestmentType::Other(s) => match back.investment_type {
                InvestmentType::Other(b) => b@ == s@,
                _ => false,
            },
            _ => back.investment_type == inv.investment_type,
        },
{
    lemma_display_is_ascii(inv.investment_type);
    law_display_then_parse(inv.investment_type, back.investment_type);
}

// ── Updating ─────────────────────────────────────────────────────────────────

/// A new amount is given and it is not above zero.
pub open spec fn amount_refused<M>(amount: Option<(M, AmountSign)>) -> bool {
    amount matches Some(p) && p.1.at_most_zero()
}

/// A new current value is given and it is negative.
pub open spec fn value_refused<M>(current_value: Option<(M, AmountSign)>) -> bool {
    current_value matches Some(p) && p.1 is Negative
}

/// `inv` with each given field replaced; the update time becomes `stamp`
/// when the amount or the current value is given.
pub open spec fn changed_record<M>(
    inv: Investment<M>,
    amount: Option<(M, AmountSign)>,
    current_value: Option<(M, AmountSign)>,
    date: Option<String>,
    notes: Option<String>,
    stamp: String,
) -> Investment<M> {
    Investment {
        amount: match amount {
            Some(p) => p.0,
            None => inv.amount,
        },
        current_value: match current_value {
            Some(p) => Some(p.0),
            None => inv.current_value,
        },
        date: match date {
            Some(d) => d,
            None => inv.date,
        },
        notes: match notes {
            Some(n) => Some(n),
            None => inv.notes,
        },
        updated_at: if amount is Some || current_value is Some {
            stamp
        } else {
            inv.updated_at
        },
        ..inv
    }
}

/// Applies the changes of an `update` command, in order: the amount, the
/// current value, the date (taken as given) and the notes.  Returns whether
/// anything was given.  A refused amount fails before anything changes; a
/// refused current value fails after the amount has been set.
pub fn apply_update<M: Copy>(
    inv: &mut Investment<M>,
    amount: Option<(M, AmountSign)>,
    current_value: Option<(M, AmountSign)>,
    date: Option<String>,
    notes: Option<String>,
) -> (res: Result<bool, InvestmentError>)
    ensures
        amount_refused(amount) ==> (res matches Err(InvestmentError::InvalidAmount(m)) && m@
            == amount_not_positive_detail() && *final(inv) == *old(inv)),
        !amount_refused(amount) && value_refused(current_value) ==> (res matches Err(
            InvestmentError::InvalidAmount(m),
        ) && m@ == negative_value_detail() && *final(inv) == changed_record(
            *old(inv),
            amount,
            None,
            None,
            None,
            final(inv).updated_at,
        ) && (amount is Some ==> is_timestamp_text(final(inv).updated_at@))),
        !amount_refused(amount) && !value_refused(current_value) ==> (res == Ok::<
            bool,
            InvestmentError,
        >(amount is Some || current_value is Some || date is Some || notes is Some) && *final(inv)
            == changed_record(*old(inv), amount, current_value, date, notes, final(inv).updated_at)
            && (amount is Some || current_value is Some ==> is_timestamp_text(final(inv).updated_at@))),
{
    let mut updated = false;
    if let Some((a, sign)) = amount {
        match inv.update_amount(a, sign) {
            Ok(()) => {},
            Err(e) => {
                return Err(e);
            },
        }
        updated = true;
    }
    if let Some((v, sign)) = current_value {
        match inv.update_current_value(v, sign) {
            Ok(()) => {},
            Err(e) => {
                return Err(e);
            },
        }
        updated = true;
    }
    if let Some(d) = date {
        inv.date = d;
        updated = true;
    }
    if let Some(n) = notes {
        inv.notes = Some(n);
        updated = true;
    }
    Ok(updated)
}

// ── Import ───────────────────────────────────────────────────────────────────

/// The imported investments whose IDs are not among the existing ones, in
/// order.
pub open spec fn fresh_imports<M>(imported: Seq<Investment<M>>, existing: Seq<Investment<M>>) -> Seq<
    Investment<M>,
>
    decreases imported.len(),
{
    if imported.len() == 0 {
        imported
    } else {
        let rest = fresh_imports(imported.drop_last(), existing);
        if has_id(existing, imported.last().id@) {
            rest
        } else {
            rest.push(imported.last())
        }
    }
}

/// The IDs of the imported investments that already exist, in order.
pub open spec fn duplicate_ids<M>(imported: Seq<Investment<M>>, existing: Seq<Investment<M>>) -> Seq<
    Seq<char>,
>
    decreases imported.len(),
{
    if imported.len() == 0 {
        Seq::empty()
    } else {
        let rest = duplicate_ids(imported.drop_last(), existing);
        if has_id(existing, imported.last().id@) {
            rest.push(imported.last().id@)
        } else {
            rest
        }
    }
}

fn contains_id<M>(s: &[Investment<M>], id: &str) -> (res: bool)
    ensures
        res == has_id(s@, id@),
{
    let n = s.len();
    let mut i: usize = 0;
    while i < n
        invariant
            n == s@.len(),
            i <= n,
            forall|k: int| 0 <= k < i ==> #[trigger] s@[k].id@ != id@,
        decreases n - i,
    {
        if text_eq(s[i].id.as_str(), id) {
            assert(s@[i as int].id@ == id@);
            return true;
        }
        i = i + 1;
    }
    false
}

/// Splits imported investments into those to add (IDs not yet present) and
/// the IDs of those skipped as duplicates, both in import order.
pub fn split_imported<M>(imported: Vec<Investment<M>>, existing: &[Investment<M>]) -> (res: (
    Vec<Investment<M>>,
    Vec<String>,
))
    ensures
        res.0@ == fresh_imports(imported@, existing@),
        res.1@.len() == duplicate_ids(imported@, existing@).len(),
        forall|k: int| 0 <= k < res.1@.len() ==> #[trigger] res.1@[k]@ == duplicate_ids(imported@, existing@)[k],
{
    let ghost orig = imported@;
    assert(orig.len() == imported.len());
    let mut rest = imported;
    let mut fresh: Vec<Investment<M>> = Vec::new();
    let mut dups: Vec<String> = Vec::new();
    let mut i: usize = 0;
    assert(orig.take(0) =~= Seq::<Investment<M>>::empty());
    assert(orig.skip(0) =~= orig);
    while rest.len() > 0
        invariant
            i <= orig.len(),
            i + rest@.len() == orig.len(),
            orig.len() <= usize::MAX,
            rest@ == orig.skip(i as int),
            fresh@ == fresh_imports(orig.take(i as int), existing@),
            dups@.len() == duplicate_ids(orig.take(i as int), existing@).len(),
            forall|k: int| 0 <= k < dups@.len() ==> #[trigger] dups@[k]@ == duplicate_ids(orig.take(i as int), existing@)[k],
        decreases rest.len(),
    {
        let inv = rest.remove(0);
        proof {
            assert(orig.take(i as int + 1).drop_last() =~= orig.take(i as int));
            assert(orig.skip(i as int).drop_first() =~= orig.skip(i as int + 1));
        }
        if contains_id(existing, inv.id.as_str()) {
            dups.push(inv.id);
        } else {
            fresh.push(inv);
        }
        i = i + 1;
    }
    assert(orig.take(i as int) =~= orig);
    (fresh, dups)
}

/// Every imported investment is either added or reported as a duplicate.
pub proof fn law_import_partition<M>(imported: Seq<Investment<M>>, existing: Seq<Investment<M>>)
    ensures
        fresh_imports(imported, existing).len() + duplicate_ids(imported, existing).len()
            == imported.len(),
        forall|k: int|
            0 <= k < fresh_imports(imported, existing).len() ==> !has_id(
                existing,
                #[trigger] fresh_imports(imported, existing)[k].id@,
            ),
        forall|k: int|
            0 <= k < duplicate_ids(imported, existing).len() ==> has_id(
                existing,
                #[trigger] duplicate_ids(imported, existing)[k],
            ),
    decreases imported.len(),
{
    if imported.len() > 0 {
        law_import_partition(imported.drop_last(), existing);
        let f0 = fresh_imports(imported.drop_last(), existing);
        let d0 = duplicate_ids(imported.drop_last(), existing);
        let f = fresh_imports(imported, existing);
        let d = duplicate_ids(imported, existing);
        assert forall|k: int| 0 <= k < f.len() implies !has_id(existing, #[trigger] f[k].id@) by {
            if k < f0.len() {
                assert(f[k] == f0[k]);
            }
        }
        assert forall|k: int| 0 <= k < d.len() implies has_id(existing, #[trigger] d[k]) by {
            if k < d0.len() {
                assert(d[k] == d0[k]);
            }
        }
    }
}

proof fn lemma_fresh_holds_new<M>(imported: Seq<Investment<M>>, existing: Seq<Investment<M>>, j: int)
    requires
        0 <= j < imported.len(),
        !has_id(existing, imported[j].id@),
    ensures
        exists|k: int|
            0 <= k < fresh_imports(imported, existing).len() && #[trigger] fresh_imports(
                imported,
                existing,
            )[k] == imported[j],
    decreases imported.len(),
{
    let f = fresh_imports(imported, existing);
    let n = imported.len() - 1;
    if j == n {
        assert(f[f.len() - 1] == imported[j]);
    } else {
        let r = imported.drop_last();
        assert(r[j] == imported[j]);
        lemma_fresh_holds_new(r, existing, j);
        let f0 = fresh_imports(r, existing);
        let k = choose|k: int| 0 <= k < f0.len() && #[trigger] f0[k] == r[j];
        assert(f[k] == f0[k]);
    }
}

proof fn lemma_fresh_none_new<M>(imported: Seq<Investment<M>>, existing: Seq<Investment<M>>)
    requires
        forall|j: int| 0 <= j < imported.len() ==> has_id(existing, #[trigger] imported[j].id@),
    ensures
        fresh_imports(imported, existing).len() == 0,
    decreases imported.len(),
{
    if imported.len() > 0 {
        let r = imported.drop_last();
        assert forall|j: int| 0 <= j < r.len() implies has_id(existing, #[trigger] r[j].id@) by {
            assert(r[j] == imported[j]);
        }
        lemma_fresh_none_new(r, existing);
        assert(has_id(existing, imported[imported.len() - 1].id@));
    }
}

/// Importing the same investments a second time adds nothing: once the fresh
/// imports have been stored (as `Storage::add_investments` stores them), every
/// imported investment that carries an ID is a duplicate.
pub proof fn law_import_twice_adds_nothing<M>(
    imported: Seq<Investment<M>>,
    existing: Seq<Investment<M>>,
    stored: Seq<Investment<M>>,
)
    requires
        forall|j: int| 0 <= j < imported.len() ==> (#[trigger] imported[j]).id@.len() > 0,
        stored.len() == fresh_imports(imported, existing).len(),
        forall|k: int|
            0 <= k < stored.len() ==> saved_as(
                fresh_imports(imported, existing)[k],
                #[trigger] stored[k],
            ),
    ensures
        fresh_imports(imported, existing + stored).len() == 0,
        duplicate_ids(imported, existing + stored).len() == imported.len(),
{
    let f = fresh_imports(imported, existing);
    let e2 = existing + stored;
    assert forall|j: int| 0 <= j < imported.len() implies has_id(e2, #[trigger] imported[j].id@) by {
        if has_id(existing, imported[j].id@) {
            let k = choose|k: int| 0 <= k < existing.len() && #[trigger] existing[k].id@ == imported[j].id@;
            assert(e2[k] == existing[k]);
        } else {
            lemma_fresh_holds_new(imported, existing, j);
            let k = choose|k: int| 0 <= k < f.len() && #[trigger] f[k] == imported[j];
            assert(saved_as(f[k], stored[k]));
            assert(e2[existing.len() + k] == stored[k]);
        }
    }
    lemma_fresh_none_new(imported, e2);
    law_import_partition(imported, e2);
}

/// The entries of `rows` that belong to the investment with ID `id`, in order.
pub open spec fn rows_for<E>(rows: Seq<(String, E)>, id: Seq<char>) -> Seq<E>
    decreases rows.len(),
{
    if rows.len() == 0 {
        Seq::empty()
    } else {
        let rest = rows_for(rows.drop_last(), id);
        if rows.last().0@ == id {
            rest.push(rows.last().1)
        } else {
            rest
        }
    }
}

/// `after` is `before` with the price entries of `rows` appended to the
/// history of the first investment holding each row's ID; rows whose ID no
/// investment holds are dropped.
pub open spec fn prices_attached<M>(
    before: Seq<Investment<M>>,
    after: Seq<Investment<M>>,
    rows: Seq<(String, PriceEntry<M>)>,
) -> bool {
    &&& after.len() == before.len()
    &&& forall|k: int|
        0 <= k < before.len() ==> {
            &&& (Investment { price_history: after[k].price_history, ..before[k] }) == #[trigger] after[k]
            &&& after[k].price_history@ == if index_of_id(before, before[k].id@) == k {
                before[k].price_history@ + rows_for(rows, before[k].id@)
            } else {
                before[k].price_history@
            }
        }
}

/// Like `prices_attached`, for dividend payments.
pub open spec fn dividends_attached<M>(
    before: Seq<Investment<M>>,
    after: Seq<Investment<M>>,
    rows: Seq<(String, DividendEntry<M>)>,
) -> bool {
    &&& after.len() == before.len()
    &&& forall|k: int|
        0 <= k < before.len() ==> {
            &&& (Investment { dividends: after[k].dividends, ..before[k] }) == #[trigger] after[k]
            &&& after[k].dividends@ == if index_of_id(before, before[k].id@) == k {
                before[k].dividends@ + rows_for(rows, before[k].id@)
            } else {
                before[k].dividends@
            }
        }
}

fn position_of<M>(s: &Vec<Investment<M>>, id: &str) -> (res: usize)
    ensures
        res == index_of_id(s@, id@),
{
    let n = s.len();
    let mut i: usize = 0;
    while i < n
        invariant
            n == s@.len(),
            i <= n,
            forall|k: int| 0 <= k < i ==> #[trigger] s@[k].id@ != id@,
        decreases n - i,
    {
        if text_eq(s[i].id.as_str(), id) {
            proof {
                lemma_index_of_id_found(s@, id@);
                if index_of_id(s@, id@) < i {
                    assert(s@[index_of_id(s@, id@)].id@ != id@);
                }
                if index_of_id(s@, id@) > i {
                    assert(s@[i as int].id@ != id@);
                }
            }
            return i;
        }
        i = i + 1;
    }
    proof {
        lemma_index_of_id_found(s@, id@);
        if index_of_id(s@, id@) < n {
            assert(s@[index_of_id(s@, id@)].id@ != id@);
        }
    }
    n
}

proof fn lemma_index_of_id_same_ids<M>(a: Seq<Investment<M>>, b: Seq<Investment<M>>, id: Seq<char>)
    requires
        a.len() == b.len(),
        forall|k: int| 0 <= k < a.len() ==> #[trigger] a[k].id == b[k].id,
    ensures
        index_of_id(a, id) == index_of_id(b, id),
    decreases a.len(),
{
    if a.len() > 0 {
        assert(a[0].id == b[0].id);
        let a1 = a.drop_first();
        let b1 = b.drop_first();
        assert forall|k: int| 0 <= k < a1.len() implies #[trigger] a1[k].id == b1[k].id by {
            assert(a1[k] == a[k + 1] && b1[k] == b[k + 1]);
        }
        lemma_index_of_id_same_ids(a1, b1, id);
    }
}

/// Appends each price row's entry to the history of the first investment
/// with the row's ID, in row order; rows for unknown IDs are dropped.
pub fn attach_price_history<M>(investments: &mut Vec<Investment<M>>, rows: Vec<(String, PriceEntry<M>)>)
    ensures
        prices_attached(old(investments)@, final(investments)@, rows@),
{
    let ghost orig = rows@;
    let ghost before = investments@;
    assert(orig.len() == rows.len());
    let mut rest = rows;
    let mut i: usize = 0;
    assert(orig.take(0) =~= Seq::<(String, PriceEntry<M>)>::empty());
    assert(orig.skip(0) =~= orig);
    assert forall|k: int| 0 <= k < before.len() implies #[trigger] before[k].price_history@ =~= before[k].price_history@ + rows_for(orig.take(0), before[k].id@) by {}
    while rest.len() > 0
        invariant
            i <= orig.len(),
            i + rest@.len() == orig.len(),
            orig.len() <= usize::MAX,
            rest@ == orig.skip(i as int),
            prices_attached(before, investments@, orig.take(i as int)),
        decreases rest.len(),
    {
        let (id, entry) = rest.remove(0);
        let ghost cur = investments@;
        let ghost t = orig.take(i as int + 1);
        proof {
            assert(t.drop_last() =~= orig.take(i as int));
            assert(orig.skip(i as int).drop_first() =~= orig.skip(i as int + 1));
            assert(t.last() == orig[i as int]);
            assert forall|k: int| 0 <= k < cur.len() implies #[trigger] cur[k].id == before[k].id by {
                assert((Investment { price_history: cur[k].price_history, ..before[k] }) == cur[k]);
            }
        }
        let p = position_of(investments, id.as_str());
        if p < investments.len() {
            let mut inv = investments.remove(p);
            inv.price_history.push(entry);
            investments.insert(p, inv);
            proof {
                lemma_index_of_id_same_ids(before, cur, id@);
                lemma_index_of_id_found(cur, id@);
                assert forall|k: int| 0 <= k < before.len() implies {
                    &&& (Investment { price_history: investments@[k].price_history, ..before[k] }) == #[trigger] investments@[k]
                    &&& investments@[k].price_history@ == if index_of_id(before, before[k].id@) == k {
                        before[k].price_history@ + rows_for(t, before[k].id@)
                    } else {
                        before[k].price_history@
                    }
                } by {
                    if k == p {
                        assert(investments@[k].price_history@ == cur[k].price_history@.push(entry));
                    } else {
                        assert(investments@[k] == cur[k]);
                        if before[k].id@ == id@ && index_of_id(before, before[k].id@) == k {
                            assert(cur[k].id@ == id@);
                        }
                    }
                }
            }
        } else {
            proof {
                lemma_index_of_id_same_ids(before, cur, id@);
                lemma_index_of_id_found(cur, id@);
                assert forall|k: int| 0 <= k < before.len() implies {
                    &&& (Investment { price_history: investments@[k].price_history, ..before[k] }) == #[trigger] investments@[k]
                    &&& investments@[k].price_history@ == if index_of_id(before, before[k].id@) == k {
                        before[k].price_history@ + rows_for(t, before[k].id@)
                    } else {
                        before[k].price_history@
                    }
                } by {
                    if before[k].id@ == id@ {
                        assert(cur[k].id@ == id@);
                    }
                }
            }
        }
        i = i + 1;
    }
    assert(orig.take(i as int) =~= orig);
}

/// Appends each dividend row's payment to the payments of the first
/// investment with the row's ID, in row order; rows for unknown IDs are dropped.
pub fn attach_dividends<M>(investments: &mut Vec<Investment<M>>, rows: Vec<(String, DividendEntry<M>)>)
    ensures
        dividends_attached(old(investments)@, final(investments)@, rows@),
{
    let ghost orig = rows@;
    let ghost before = investments@;
    assert(orig.len() == rows.len());
    let mut rest = rows;
    let mut i: usize = 0;
    assert(orig.take(0) =~= Seq::<(String, DividendEntry<M>)>::empty());
    assert(orig.skip(0) =~= orig);
    assert forall|k: int| 0 <= k < before.len() implies #[trigger] before[k].dividends@ =~= before[k].dividends@ + rows_for(orig.take(0), before[k].id@) by {}
    while rest.len() > 0
        invariant
            i <= orig.len(),
            i + rest@.len() == orig.len(),
            orig.len() <= usize::MAX,
            rest@ == orig.skip(i as int),
            dividends_attached(before, investments@, orig.take(i as int)),
        decreases rest.len(),
    {
        let (id, entry) = rest.remove(0);
        let ghost cur = investments@;
        let ghost t = orig.take(i as int + 1);
        proof {
            assert(t.drop_last() =~= orig.take(i as int));
            assert(orig.skip(i as int).drop_first() =~= orig.skip(i as int + 1));
            assert(t.last() == orig[i as int]);
            assert forall|k: int| 0 <= k < cur.len() implies #[trigger] cur[k].id == before[k].id by {
                assert((Investment { dividends: cur[k].dividends, ..before[k] }) == cur[k]);
            }
        }
        let p = position_of(investments, id.as_str());
        if p < investments.len() {
            let mut inv = investments.remove(p);
            inv.dividends.push(entry);
            investments.insert(p, inv);
            proof {
                lemma_index_of_id_same_ids(before, cur, id@);
                lemma_index_of_id_found(cur, id@);
                assert forall|k: int| 0 <= k < before.len() implies {
                    &&& (Investment { dividends: investments@[k].dividends, ..before[k] }) == #[trigger] investments@[k]
                    &&& investments@[k].dividends@ == if index_of_id(before, before[k].id@) == k {
                        before[k].dividends@ + rows_for(t, before[k].id@)
                    } else {
                        before[k].dividends@
                    }
                } by {
                    if k == p {
                        assert(investments@[k].dividends@ == cur[k].dividends@.push(entry));
                    } else {
                        assert(investments@[k] == cur[k]);
                        if before[k].id@ == id@ && index_of_id(before, before[k].id@) == k {
                            assert(cur[k].id@ == id@);
                        }
                    }
                }
            }
        } else {
            proof {
                lemma_index_of_id_same_ids(before, cur, id@);
                lemma_index_of_id_found(cur, id@);
                assert forall|k: int| 0 <= k < before.len() implies {
                    &&& (Investment { dividends: investments@[k].dividends, ..before[k] }) == #[trigger] investments@[k]
                    &&& investments@[k].dividends@ == if index_of_id(before, before[k].id@) == k {
                        before[k].dividends@ + rows_for(t, before[k].id@)
                    } else {
                        before[k].dividends@
                    }
                } by {
                    if before[k].id@ == id@ {
                        assert(cur[k].id@ == id@);
                    }
                }
            }
        }
        i = i + 1;
    }
    assert(orig.take(i as int) =~= orig);
}


// ── Export rows ──────────────────────────────────────────────────────────────

/// Each of `entries`, paired with the ID `id`.
pub open spec fn tagged<E>(id: String, entries: Seq<E>) -> Seq<(String, E)> {
    Seq::new(entries.len(), |i: int| (id, entries[i]))
}

/// The rows an export writes for one kind of entry: the entries that
/// `entries` picks from each investment, paired with the investment's ID,
/// investment after investment.
pub open spec fn entry_rows<M, E>(
    s: Seq<Investment<M>>,
    entries: spec_fn(Investment<M>) -> Seq<E>,
) -> Seq<(String, E)>
    decreases s.len(),
{
    if s.len() == 0 {
        Seq::empty()
    } else {
        entry_rows(s.drop_last(), entries) + tagged(s.last().id, entries(s.last()))
    }
}

/// Picks an investment's price history.
pub open spec fn price_entries<M>() -> spec_fn(Investment<M>) -> Seq<PriceEntry<M>> {
    |inv: Investment<M>| inv.price_history@
}

/// Picks an investment's dividend payments.
pub open spec fn dividend_entries<M>() -> spec_fn(Investment<M>) -> Seq<DividendEntry<M>> {
    |inv: Investment<M>| inv.dividends@
}

proof fn lemma_rows_for_concat<E>(a: Seq<(String, E)>, b: Seq<(String, E)>, id: Seq<char>)
    ensures
        rows_for(a + b, id) == rows_for(a, id) + rows_for(b, id),
    decreases b.len(),
{
    if b.len() == 0 {
        assert(a + b =~= a);
        assert(rows_for(a, id) + rows_for(b, id) =~= rows_for(a, id));
    } else {
        lemma_rows_for_concat(a, b.drop_last(), id);
        assert((a + b).drop_last() =~= a + b.drop_last());
        assert((a + b).last() == b.last());
        if b.last().0@ == id {
            assert(rows_for(a, id) + rows_for(b.drop_last(), id).push(b.last().1) =~= (rows_for(a, id)
                + rows_for(b.drop_last(), id)).push(b.last().1));
        }
    }
}

proof fn lemma_rows_for_tagged<E>(t: String, es: Seq<E>, id: Seq<char>)
    ensures
        rows_for(tagged(t, es), id) == if t@ == id {
            es
        } else {
            Seq::<E>::empty()
        },
    decreases es.len(),
{
    if es.len() == 0 {
        assert(tagged(t, es) =~= Seq::<(String, E)>::empty());
        assert(es =~= Seq::<E>::empty());
    } else {
        lemma_rows_for_tagged(t, es.drop_last(), id);
        assert(tagged(t, es).drop_last() =~= tagged(t, es.drop_last()));
        assert(tagged(t, es).last() == (t, es.last()));
        assert(es.drop_last().push(es.last()) =~= es);
    }
}

proof fn lemma_entry_rows_absent<M, E>(
    s: Seq<Investment<M>>,
    entries: spec_fn(Investment<M>) -> Seq<E>,
    id: Seq<char>,
)
    requires
        !has_id(s, id),
    ensures
        rows_for(entry_rows(s, entries), id) == Seq::<E>::empty(),
    decreases s.len(),
{
    if s.len() == 0 {
        assert(entry_rows(s, entries) =~= Seq::<(String, E)>::empty());
    } else {
        let r = s.drop_last();
        if has_id(r, id) {
            let k = choose|k: int| 0 <= k < r.len() && #[trigger] r[k].id@ == id;
            assert(s[k].id@ == id);
        }
        assert(s[s.len() - 1].id@ != id);
        lemma_entry_rows_absent(r, entries, id);
        lemma_rows_for_concat(entry_rows(r, entries), tagged(s.last().id, entries(s.last())), id);
        lemma_rows_for_tagged(s.last().id, entries(s.last()), id);
        assert(Seq::<E>::empty() + Seq::<E>::empty() =~= Seq::<E>::empty());
    }
}

proof fn lemma_entry_rows_present<M, E>(
    s: Seq<Investment<M>>,
    entries: spec_fn(Investment<M>) -> Seq<E>,
    k: int,
)
    requires
        ids_distinct(s),
        0 <= k < s.len(),
    ensures
        rows_for(entry_rows(s, entries), s[k].id@) == entries(s[k]),
    decreases s.len(),
{
    let n = s.len() - 1;
    let r = s.drop_last();
    let id = s[k].id@;
    lemma_rows_for_concat(entry_rows(r, entries), tagged(s.last().id, entries(s.last())), id);
    lemma_rows_for_tagged(s.last().id, entries(s.last()), id);
    if k == n {
        if has_id(r, id) {
            let j = choose|j: int| 0 <= j < r.len() && #[trigger] r[j].id@ == id;
            assert(s[j].id@ == s[n].id@);
        }
        lemma_entry_rows_absent(r, entries, id);
        assert(Seq::<E>::empty() + entries(s[k]) =~= entries(s[k]));
    } else {
        assert(s[k].id@ != s[n].id@);
        assert forall|i: int, j: int| 0 <= i < j < r.len() implies #[trigger] r[i].id@
            != #[trigger] r[j].id@ by {
            assert(r[i] == s[i] && r[j] == s[j]);
        }
        assert(r[k] == s[k]);
        lemma_entry_rows_present(r, entries, k);
        assert(entries(s[k]) + Seq::<E>::empty() =~= entries(s[k]));
    }
}

/// The price-history rows an export writes: each investment's price
/// entries, paired with its ID, investment after investment.
pub fn price_rows<M: Copy>(investments: &[Investment<M>]) -> (res: Vec<(String, PriceEntry<M>)>)
    ensures
        res@ == entry_rows(investments@, price_entries()),
{
    let mut res: Vec<(String, PriceEntry<M>)> = Vec::new();
    let mut i: usize = 0;
    assert(investments@.take(0) =~= Seq::<Investment<M>>::empty());
    while i < investments.len()
        invariant
            i <= investments@.len(),
            res@ == entry_rows(investments@.take(i as int), price_entries()),
        decreases investments@.len() - i,
    {
        let inv = &investments[i];
        let ghost start = res@;
        let mut j: usize = 0;
        assert(tagged(inv.id, inv.price_history@.take(0)) =~= Seq::<(String, PriceEntry<M>)>::empty());
        assert(start + Seq::<(String, PriceEntry<M>)>::empty() =~= start);
        while j < inv.price_history.len()
            invariant
                j <= inv.price_history@.len(),
                res@ == start + tagged(inv.id, inv.price_history@.take(j as int)),
            decreases inv.price_history@.len() - j,
        {
            res.push((inv.id.clone(), inv.price_history[j].clone()));
            assert(tagged(inv.id, inv.price_history@.take(j as int + 1)) =~= tagged(
                inv.id,
                inv.price_history@.take(j as int),
            ).push((inv.id, inv.price_history@[j as int])));
            j = j + 1;
        }
        assert(inv.price_history@.take(j as int) =~= inv.price_history@);
        assert(investments@.take(i as int + 1).drop_last() =~= investments@.take(i as int));
        assert(investments@.take(i as int + 1).last() == investments@[i as int]);
        i = i + 1;
    }
    assert(investments@.take(i as int) =~= investments@);
    res
}

/// The dividend rows an export writes: each investment's payments, paired
/// with its ID, investment after investment.
pub fn dividend_rows<M: Copy>(investments: &[Investment<M>]) -> (res: Vec<(String, DividendEntry<M>)>)
    ensures
        res@ == entry_rows(investments@, dividend_entries()),
{
    let mut res: Vec<(String, DividendEntry<M>)> = Vec::new();
    let mut i: usize = 0;
    assert(investments@.take(0) =~= Seq::<Investment<M>>::empty());
    while i < investments.len()
        invariant
            i <= investments@.len(),
            res@ == entry_rows(investments@.take(i as int), dividend_entries()),
        decreases investments@.len() - i,
    {
        let inv = &investments[i];
        let ghost start = res@;
        let mut j: usize = 0;
        assert(tagged(inv.id, inv.dividends@.take(0)) =~= Seq::<(String, DividendEntry<M>)>::empty());
        assert(start + Seq::<(String, DividendEntry<M>)>::empty() =~= start);
        while j < inv.dividends.len()
            invariant
                j <= inv.dividends@.len(),
                res@ == start + tagged(inv.id, inv.dividends@.take(j as int)),
            decreases inv.dividends@.len() - j,
        {
            res.push((inv.id.clone(), inv.dividends[j].clone()));
            assert(tagged(inv.id, inv.dividends@.take(j as int + 1)) =~= tagged(
                inv.id,
                inv.dividends@.take(j as int),
            ).push((inv.id, inv.dividends@[j as int])));
            j = j + 1;
        }
        assert(inv.dividends@.take(j as int) =~= inv.dividends@);
        assert(investments@.take(i as int + 1).drop_last() =~= investments@.take(i as int));
        assert(investments@.take(i as int + 1).last() == investments@[i as int]);
        i = i + 1;
    }
    assert(investments@.take(i as int) =~= investments@);
    res
}

/// Exporting price histories and importing them again restores them: when
/// IDs are distinct, attaching the rows an export writes to the same
/// investments without price histories gives each its history back.
pub proof fn law_price_rows_restore_history<M>(
    s: Seq<Investment<M>>,
    bare: Seq<Investment<M>>,
    restored: Seq<Investment<M>>,
)
    requires
        ids_distinct(s),
        bare.len() == s.len(),
        forall|k: int|
            0 <= k < s.len() ==> (Investment { price_history: bare[k].price_history, ..s[k] })
                == #[trigger] bare[k] && bare[k].price_history@.len() == 0,
        prices_attached(bare, restored, entry_rows(s, price_entries())),
    ensures
        restored.len() == s.len(),
        forall|k: int|
            0 <= k < s.len() ==> (Investment { price_history: restored[k].price_history, ..s[k] })
                == #[trigger] restored[k] && restored[k].price_history@ == s[k].price_history@,
{
    assert forall|k: int| 0 <= k < s.len() implies (Investment {
        price_history: restored[k].price_history,
        ..s[k]
    }) == #[trigger] restored[k] && restored[k].price_history@ == s[k].price_history@ by {
        assert(bare[k].id == s[k].id);
        assert forall|j: int| 0 <= j < k implies #[trigger] bare[j].id@ != bare[k].id@ by {
            assert(bare[j].id == s[j].id);
        }
        lemma_index_of_id(bare, bare[k].id@, k);
        lemma_entry_rows_present(s, price_entries(), k);
        assert(bare[k].price_history@ + s[k].price_history@ =~= s[k].price_history@);
    }
}

/// Exporting dividend payments and importing them again restores them: when
/// IDs are distinct, attaching the rows an export writes to the same
/// investments without payments gives each its payments back.
pub proof fn law_dividend_rows_restore_dividends<M>(
    s: Seq<Investment<M>>,
    bare: Seq<Investment<M>>,
    restored: Seq<Investment<M>>,
)
    requires
        ids_distinct(s),
        bare.len() == s.len(),
        forall|k: int|
            0 <= k < s.len() ==> (Investment { dividends: bare[k].dividends, ..s[k] })
                == #[trigger] bare[k] && bare[k].dividends@.len() == 0,
        dividends_attached(bare, restored, entry_rows(s, dividend_entries())),
    ensures
        restored.len() == s.len(),
        forall|k: int|
            0 <= k < s.len() ==> (Investment { dividends: restored[k].dividends, ..s[k] })
                == #[trigger] restored[k] && restored[k].dividends@ == s[k].dividends@,
{
    assert forall|k: int| 0 <= k < s.len() implies (Investment {
        dividends: restored[k].dividends,
        ..s[k]
    }) == #[trigger] restored[k] && restored[k].dividends@ == s[k].dividends@ by {
        assert(bare[k].id == s[k].id);
        assert forall|j: int| 0 <= j < k implies #[trigger] bare[j].id@ != bare[k].id@ by {
            assert(bare[j].id == s[j].id);
        }
        lemma_index_of_id(bare, bare[k].id@, k);
        lemma_entry_rows_present(s, dividend_entries(), k);
        assert(bare[k].dividends@ + s[k].dividends@ =~= s[k].dividends@);
    }
}

} // verus!

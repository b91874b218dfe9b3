//! User settings: currency, data directory, date format and output options.
use vstd::prelude::*;
use vstd::string::StringExecFns;
use std::path::PathBuf;
use crate::text::{
    ascii_upper, is_ascii_text, lemma_ascii_upper_idempotent, text_eq, to_lowercase, to_uppercase,
    lowercase_text, uppercase_text,
};

verus! {

/// The user's settings; an unset field takes its default where it is used.
#[derive(Debug, Clone)]
pub struct Config {
    pub data_directory: Option<String>,
    pub default_currency: Option<String>,
    pub date_format: Option<String>,
    pub show_dividends: Option<bool>,
    pub color_output: Option<bool>,
}

/// The option's text, if any.
pub open spec fn text_of(t: Option<String>) -> Option<Seq<char>> {
    match t {
        Some(s) => Some(s@),
        None => None,
    }
}

impl Config {
    /// The defaults: currency USD, dates as YYYY-MM-DD, dividends shown,
    /// coloured output, and the default data directory.
    pub open spec fn is_default(&self) -> bool {
        &&& self.data_directory is None
        &&& text_of(self.default_currency) == Some("USD"@)
        &&& text_of(self.date_format) == Some("YYYY-MM-DD"@)
        &&& self.show_dividends == Some(true)
        &&& self.color_output == Some(true)
    }

    /// A configuration holding the defaults.
    pub fn new() -> (res: Self)
        ensures
            res.is_default(),
    {
        Self::default()
    }
}

impl Default for Config {
    fn default() -> (res: Self)
        ensures
            res.is_default(),
    {
        Config {
            data_directory: None,
            default_currency: Some(String::from_str("USD")),
            date_format: Some(String::from_str("YYYY-MM-DD")),
            show_dividends: Some(true),
            color_output: Some(true),
        }
    }
}

/// The path that `PathBuf::from` makes of a text.
pub uninterp spec fn path_of_text(s: Seq<char>) -> PathBuf;

/// The path that `PathBuf::from(dir).join(file)` makes.
pub uninterp spec fn path_in_directory(dir: Seq<char>, file: Seq<char>) -> PathBuf;

/// Calls `PathBuf::from(dir).join(file)`; its result is named by
/// `path_in_directory`.
#[verifier::external_body]
fn join_in_directory(dir: String, file: &str) -> (res: PathBuf)
    ensures
        res == path_in_directory(dir@, file@),
{
    PathBuf::from(dir).join(file)
}

/// Calls `PathBuf::from`; its result is named by `path_of_text`.
#[verifier::external_body]
fn path_from_text(s: String) -> (res: PathBuf)
    ensures
        res == path_of_text(s@),
{
    PathBuf::from(s)
}

/// A code the symbol table knows.
pub open spec fn is_known_code(code: Seq<char>) -> bool {
    code == "USD"@ || code == "EUR"@ || code == "GBP"@ || code == "JPY"@ || code == "CNY"@
        || code == "CNH"@ || code == "CHF"@ || code == "CAD"@ || code == "AUD"@ || code == "NZD"@
        || code == "SEK"@ || code == "NOK"@ || code == "DKK"@ || code == "BRL"@ || code == "INR"@
        || code == "KRW"@ || code == "HKD"@ || code == "SGD"@ || code == "MXN"@ || code == "PLN"@
        || code == "CZK"@ || code == "HUF"@ || code == "TRY"@ || code == "RUB"@ || code == "ZAR"@
        || code == "BTC"@ || code == "ETH"@
}

/// The symbol of a currency code that is already upper-cased; an unknown
/// code is its own symbol.
pub open spec fn symbol_of_code(code: Seq<char>) -> Seq<char> {
    if code == "USD"@ {
        "$"@
    } else if code == "EUR"@ {
        "€"@
    } else if code == "GBP"@ {
        "£"@
    } else if code == "JPY"@ || code == "CNY"@ || code == "CNH"@ {
        "¥"@
    } else if code == "CHF"@ {
        "Fr"@
    } else if code == "CAD"@ {
        "CA$"@
    } else if code == "AUD"@ {
        "A$"@
    } else if code == "NZD"@ {
        "NZ$"@
    } else if code == "SEK"@ || code == "NOK"@ || code == "DKK"@ {
        "kr"@
    } else if code == "BRL"@ {
        "R$"@
    } else if code == "INR"@ {
        "₹"@
    } else if code == "KRW"@ {
        "₩"@
    } else if code == "HKD"@ {
        "HK$"@
    } else if code == "SGD"@ {
        "S$"@
    } else if code == "MXN"@ {
        "MX$"@
    } else if code == "PLN"@ {
        "zł"@
    } else if code == "CZK"@ {
        "Kč"@
    } else if code == "HUF"@ {
        "Ft"@
    } else if code == "TRY"@ {
        "₺"@
    } else if code == "RUB"@ {
        "₽"@
    } else if code == "ZAR"@ {
        "R"@
    } else if code == "BTC"@ {
        "₿"@
    } else if code == "ETH"@ {
        "Ξ"@
    } else {
        code
    }
}

fn symbol_for_code(code: String) -> (res: String)
    ensures
        res@ == symbol_of_code(code@),
{
    let c = code.as_str();
    if text_eq(c, "USD") {
        String::from_str("$")
    } else if text_eq(c, "EUR") {
        String::from_str("€")
    } else if text_eq(c, "GBP") {
        String::from_str("£")
    } else if text_eq(c, "JPY") || text_eq(c, "CNY") || text_eq(c, "CNH") {
        String::from_str("¥")
    } else if text_eq(c, "CHF") {
        String::from_str("Fr")
    } else if text_eq(c, "CAD") {
        String::from_str("CA$")
    } else if text_eq(c, "AUD") {
        String::from_str("A$")
    } else if text_eq(c, "NZD") {
        String::from_str("NZ$")
    } else if text_eq(c, "SEK") || text_eq(c, "NOK") || text_eq(c, "DKK") {
        String::from_str("kr")
    } else if text_eq(c, "BRL") {
        String::from_str("R$")
    } else if text_eq(c, "INR") {
        String::from_str("₹")
    } else if text_eq(c, "KRW") {
        String::from_str("₩")
    } else if text_eq(c, "HKD") {
        String::from_str("HK$")
    } else if text_eq(c, "SGD") {
        String::from_str("S$")
    } else if text_eq(c, "MXN") {
        String::from_str("MX$")
    } else if text_eq(c, "PLN") {
        String::from_str("zł")
    } else if text_eq(c, "CZK") {
        String::from_str("Kč")
    } else if text_eq(c, "HUF") {
        String::from_str("Ft")
    } else if text_eq(c, "TRY") {
        String::from_str("₺")
    } else if text_eq(c, "RUB") {
        String::from_str("₽")
    } else if text_eq(c, "ZAR") {
        String::from_str("R")
    } else if text_eq(c, "BTC") {
        String::from_str("₿")
    } else if text_eq(c, "ETH") {
        String::from_str("Ξ")
    } else {
        code
    }
}

/// The keys a setting can be changed under.
#[derive(Debug, Clone, Copy, PartialEq, Eq, Structural)]
pub enum SettingKey {
    DataDirectory,
    Currency,
    DateFormat,
    ShowDividends,
    ColorOutput,
}

/// Why a setting could not be changed.
#[derive(Debug, PartialEq)]
pub enum ConfigError {
    /// The key (lower-cased) names no setting.
    UnknownKey(String),
    /// The value of a yes/no setting is neither `true` nor `false`.
    InvalidBool(String),
}

/// The setting that an already lower-cased key names, if any.
pub open spec fn setting_for_key(lower: Seq<char>) -> Option<SettingKey> {
    if lower == "data-directory"@ || lower == "data_directory"@ {
        Some(SettingKey::DataDirectory)
    } else if lower == "currency"@ {
        Some(SettingKey::Currency)
    } else if lower == "date-format"@ || lower == "date_format"@ {
        Some(SettingKey::DateFormat)
    } else if lower == "show-dividends"@ || lower == "show_dividends"@ {
        Some(SettingKey::ShowDividends)
    } else if lower == "color-output"@ || lower == "color_output"@ {
        Some(SettingKey::ColorOutput)
    } else {
        None
    }
}

/// The yes/no value a text stands for, as `bool`'s `FromStr` reads it.
pub open spec fn bool_of_text(s: Seq<char>) -> Option<bool> {
    if s == "true"@ {
        Some(true)
    } else if s == "false"@ {
        Some(false)
    } else {
        None
    }
}

/// Reads `true` or `false`.
pub fn parse_bool(s: &str) -> (res: Option<bool>)
    ensures
        res == bool_of_text(s@),
{
    if text_eq(s, "true") {
        Some(true)
    } else if text_eq(s, "false") {
        Some(false)
    } else {
        None
    }
}

fn setting_key(lower: &str) -> (res: Option<SettingKey>)
    ensures
        res == setting_for_key(lower@),
{
    if text_eq(lower, "data-directory") || text_eq(lower, "data_directory") {
        Some(SettingKey::DataDirectory)
    } else if text_eq(lower, "currency") {
        Some(SettingKey::Currency)
    } else if text_eq(lower, "date-format") || text_eq(lower, "date_format") {
        Some(SettingKey::DateFormat)
    } else if text_eq(lower, "show-dividends") || text_eq(lower, "show_dividends") {
        Some(SettingKey::ShowDividends)
    } else if text_eq(lower, "color-output") || text_eq(lower, "color_output") {
        Some(SettingKey::ColorOutput)
    } else {
        None
    }
}

/// The settings as shown to the user, with defaults filled in.
#[derive(Debug)]
pub struct ConfigSummary {
    pub data_directory: String,
    pub default_currency: String,
    pub date_format: String,
    pub show_dividends: bool,
    pub color_output: bool,
}

fn text_or(t: &Option<String>, default: &str) -> (res: String)
    ensures
        res@ == match t {
            Some(s) => s@,
            None => default@,
        },
{
    match t {
        Some(s) => s.clone(),
        None => String::from_str(default),
    }
}

fn flag_or_true(b: Option<bool>) -> (res: bool)
    ensures
        res == match b {
            Some(v) => v,
            None => true,
        },
{
    match b {
        Some(v) => v,
        None => true,
    }
}

impl Config {
    /// The currency symbol of the configured currency (USD when unset); the
    /// code is upper-cased first, and an unknown code is shown as itself.
    pub open spec fn spec_currency_symbol(&self) -> Seq<char> {
        let code = match self.default_currency {
            Some(c) => c@,
            None => "USD"@,
        };
        symbol_of_code(uppercase_text(code))
    }

    /// The configured currency code, USD when unset.
    pub open spec fn currency_code(&self) -> Seq<char> {
        match self.default_currency {
            Some(c) => c@,
            None => "USD"@,
        }
    }

    /// The currency symbol of an ASCII code: the symbol of the code with its
    /// letters raised.
    pub open spec fn ascii_currency_symbol(&self) -> Seq<char> {
        symbol_of_code(ascii_upper(self.currency_code()))
    }

    /// Maps the currency code (e.g. "USD", "EUR") to its symbol (e.g. "$",
    /// "€"), in any letter case, falling back to the upper-cased code itself.
    pub fn currency_symbol(&self) -> (res: String)
        ensures
            res@ == self.spec_currency_symbol(),
            is_ascii_text(self.currency_code()) ==> res@ == self.ascii_currency_symbol(),
    {
        proof {
            reveal_strlit("USD");
        }
        let upper = match &self.default_currency {
            Some(c) => to_uppercase(c.as_str()),
            None => to_uppercase("USD"),
        };
        symbol_for_code(upper)
    }

    /// The configured data directory as a path.
    pub fn get_data_directory(&self) -> (res: Option<PathBuf>)
        ensures
            match self.data_directory {
                Some(d) => res == Some(path_of_text(d@)),
                None => res is None,
            },
    {
        match &self.data_directory {
            Some(d) => Some(path_from_text(d.clone())),
            None => None,
        }
    }

    /// Changes the setting that `key` names (in any letter case) to `value`.
    /// The yes/no settings take `true` or `false`.  On an error nothing
    /// changes.
    pub fn apply_setting(&mut self, key: &str, value: String) -> (res: Result<SettingKey, ConfigError>)
        ensures
            ({
                let lower = lowercase_text(key@);
                match setting_for_key(lower) {
                    None => res matches Err(ConfigError::UnknownKey(k)) && k@ == lower && *final(self) == *old(self),
                    Some(SettingKey::DataDirectory) => res == Ok::<SettingKey, ConfigError>(
                        SettingKey::DataDirectory,
                    ) && *final(self) == (Config { data_directory: Some(value), ..*old(self) }),
                    Some(SettingKey::Currency) => res == Ok::<SettingKey, ConfigError>(
                        SettingKey::Currency,
                    ) && *final(self) == (Config { default_currency: Some(value), ..*old(self) }),
                    Some(SettingKey::DateFormat) => res == Ok::<SettingKey, ConfigError>(
                        SettingKey::DateFormat,
                    ) && *final(self) == (Config { date_format: Some(value), ..*old(self) }),
                    Some(SettingKey::ShowDividends) => match bool_of_text(value@) {
                        Some(b) => res == Ok::<SettingKey, ConfigError>(SettingKey::ShowDividends)
                            && *final(self) == (Config { show_dividends: Some(b), ..*old(self) }),
                        None => res matches Err(ConfigError::InvalidBool(v)) && v == value && *final(self) == *old(self),
                    },
                    Some(SettingKey::ColorOutput) => match bool_of_text(value@) {
                        Some(b) => res == Ok::<SettingKey, ConfigError>(SettingKey::ColorOutput)
                            && *final(self) == (Config { color_output: Some(b), ..*old(self) }),
                        None => res matches Err(ConfigError::InvalidBool(v)) && v == value && *final(self) == *old(self),
                    },
                }
            }),
    {
        let lower = to_lowercase(key);
        match setting_key(lower.as_str()) {
            None => Err(ConfigError::UnknownKey(lower)),
            Some(SettingKey::DataDirectory) => {
                self.data_directory = Some(value);
                Ok(SettingKey::DataDirectory)
            },
            Some(SettingKey::Currency) => {
                self.default_currency = Some(value);
                Ok(SettingKey::Currency)
            },
            Some(SettingKey::DateFormat) => {
                self.date_format = Some(value);
                Ok(SettingKey::DateFormat)
            },
            Some(SettingKey::ShowDividends) => match parse_bool(value.as_str()) {
                Some(b) => {
                    self.show_dividends = Some(b);
                    Ok(SettingKey::ShowDividends)
                },
                None => Err(ConfigError::InvalidBool(value)),
            },
            Some(SettingKey::ColorOutput) => match parse_bool(value.as_str()) {
                Some(b) => {
                    self.color_output = Some(b);
                    Ok(SettingKey::ColorOutput)
                },
                None => Err(ConfigError::InvalidBool(value)),
            },
        }
    }

    /// The settings as shown by `config show`: an unset data directory is the
    /// default one, the currency defaults to USD, the date format to
    /// YYYY-MM-DD and both yes/no options to yes.
    pub fn summary(&self) -> (res: ConfigSummary)
        ensures
            res.data_directory@ == match self.data_directory {
                Some(d) => d@,
                None => "Default (home directory)"@,
            },
            res.default_currency@ == match self.default_currency {
                Some(c) => c@,
                None => "USD"@,
            },
            res.date_format@ == match self.date_format {
                Some(f) => f@,
                None => "YYYY-MM-DD"@,
            },
            res.show_dividends == match self.show_dividends {
                Some(b) => b,
                None => true,
            },
            res.color_output == match self.color_output {
                Some(b) => b,
                None => true,
            },
    {
        ConfigSummary {
            data_directory: text_or(&self.data_directory, "Default (home directory)"),
            default_currency: text_or(&self.default_currency, "USD"),
            date_format: text_or(&self.date_format, "YYYY-MM-DD"),
            show_dividends: flag_or_true(self.show_dividends),
            color_output: flag_or_true(self.color_output),
        }
    }
}

/// Where the data file lies.
#[derive(Debug, PartialEq)]
pub enum DataLocation {
    /// The file that the environment names (`INVESTMENT_TRACKER_DATA`).
    File(String),
    /// `investments.json` in the configured data directory.
    Directory(String),
    /// The default `.investment_tracker/investments.json` in the home directory.
    Default,
}

/// Chooses where the data file lies, in order of precedence: the file the
/// environment names, then the configured data directory (when the
/// configuration could be loaded), then the default location.
pub fn data_location(env_path: Option<String>, config: Option<&Config>) -> (res: DataLocation)
    ensures
        match env_path {
            Some(p) => res == DataLocation::File(p),
            None => match config {
                Some(c) => match c.data_directory {
                    Some(d) => res == DataLocation::Directory(d),
                    None => res == DataLocation::Default,
                },
                None => res == DataLocation::Default,
            },
        },
{
    match env_path {
        Some(p) => DataLocation::File(p),
        None => match config {
            Some(c) => match &c.data_directory {
                Some(d) => DataLocation::Directory(d.clone()),
                None => DataLocation::Default,
            },
            None => DataLocation::Default,
        },
    }
}

/// The data directory of the configuration that could be loaded, if it
/// sets one.
pub open spec fn configured_directory(config: Option<&Config>) -> Option<String> {
    match config {
        Some(c) => c.data_directory,
        None => None,
    }
}

/// The path of the data file: the file the environment names; otherwise
/// `investments.json` in the configured data directory; otherwise
/// `default_file` (the default location, which the caller finds).
pub fn data_file_path(env_path: Option<String>, config: Option<&Config>, default_file: PathBuf) -> (res: PathBuf)
    ensures
        match env_path {
            Some(p) => res == path_of_text(p@),
            None => match configured_directory(config) {
                Some(d) => res == path_in_directory(d@, "investments.json"@),
                None => res == default_file,
            },
        },
{
    match data_location(env_path, config) {
        DataLocation::File(p) => path_from_text(p),
        DataLocation::Directory(d) => join_in_directory(d, "investments.json"),
        DataLocation::Default => default_file,
    }
}

/// Currency codes match in any letter case: a configuration holding an
/// ASCII code shows the same symbol as one holding the code upper-cased;
/// and a code outside the table is shown as itself, upper-cased.
pub proof fn law_currency_code_any_case(a: Config, b: Config)
    requires
        is_ascii_text(a.currency_code()),
        b.currency_code() == ascii_upper(a.currency_code()),
    ensures
        is_ascii_text(b.currency_code()),
        a.ascii_currency_symbol() == b.ascii_currency_symbol(),
        !is_known_code(ascii_upper(a.currency_code())) ==> a.ascii_currency_symbol() == ascii_upper(
            a.currency_code(),
        ),
{
    lemma_ascii_upper_idempotent(a.currency_code());
}

/// The documented setting keys, each in its hyphenated and its underscored
/// spelling, name the settings they say: both spellings of a key name the
/// same setting, different keys name different settings, and no other
/// (lower-cased) text names a setting.
pub proof fn law_setting_keys(lower: Seq<char>)
    ensures
        setting_for_key("data-directory"@) == Some(SettingKey::DataDirectory),
        setting_for_key("data_directory"@) == Some(SettingKey::DataDirectory),
        setting_for_key("currency"@) == Some(SettingKey::Currency),
        setting_for_key("date-format"@) == Some(SettingKey::DateFormat),
        setting_for_key("date_format"@) == Some(SettingKey::DateFormat),
        setting_for_key("show-dividends"@) == Some(SettingKey::ShowDividends),
        setting_for_key("show_dividends"@) == Some(SettingKey::ShowDividends),
        setting_for_key("color-output"@) == Some(SettingKey::ColorOutput),
        setting_for_key("color_output"@) == Some(SettingKey::ColorOutput),
        setting_for_key(lower) is Some ==> lower == "data-directory"@ || lower == "data_directory"@
            || lower == "currency"@ || lower == "date-format"@ || lower == "date_format"@ || lower
            == "show-dividends"@ || lower == "show_dividends"@ || lower == "color-output"@ || lower
            == "color_output"@,
{
    reveal_strlit("data-directory");
    reveal_strlit("data_directory");
    reveal_strlit("currency");
    reveal_strlit("date-format");
    reveal_strlit("date_format");
    reveal_strlit("show-dividends");
    reveal_strlit("show_dividends");
    reveal_strlit("color-output");
    reveal_strlit("color_output");
    assert("data-directory"@.len() == 14 && "data-directory"@[0] == 'd' && "data-directory"@[1] == 'a' && "data-directory"@[2] == 't' && "data-directory"@[3] == 'a' && "data-directory"@[4] == '-' && "data-directory"@[5] == 'd' && "data-directory"@[6] == 'i' && "data-directory"@[7] == 'r' && "data-directory"@[8] == 'e' && "data-directory"@[9] == 'c' && "data-directory"@[10] == 't' && "data-directory"@[11] == 'o' && "data-directory"@[12] == 'r' && "data-directory"@[13] == 'y');
    assert("data_directory"@.len() == 14 && "data_directory"@[0] == 'd' && "data_directory"@[1] == 'a' && "data_directory"@[2] == 't' && "data_directory"@[3] == 'a' && "data_directory"@[4] == '_' && "data_directory"@[5] == 'd' && "data_directory"@[6] == 'i' && "data_directory"@[7] == 'r' && "data_directory"@[8] == 'e' && "data_directory"@[9] == 'c' && "data_directory"@[10] == 't' && "data_directory"@[11] == 'o' && "data_directory"@[12] == 'r' && "data_directory"@[13] == 'y');
    assert("currency"@.len() == 8 && "currency"@[0] == 'c' && "currency"@[1] == 'u' && "currency"@[2] == 'r' && "currency"@[3] == 'r' && "currency"@[4] == 'e' && "currency"@[5] == 'n' && "currency"@[6] == 'c' && "currency"@[7] == 'y');
    assert("date-format"@.len() == 11 && "date-format"@[0] == 'd' && "date-format"@[1] == 'a' && "date-format"@[2] == 't' && "date-format"@[3] == 'e' && "date-format"@[4] == '-' && "date-format"@[5] == 'f' && "date-format"@[6] == 'o' && "date-format"@[7] == 'r' && "date-format"@[8] == 'm' && "date-format"@[9] == 'a' && "date-format"@[10] == 't');
    assert("date_format"@.len() == 11 && "date_format"@[0] == 'd' && "date_format"@[1] == 'a' && "date_format"@[2] == 't' && "date_format"@[3] == 'e' && "date_format"@[4] == '_' && "date_format"@[5] == 'f' && "date_format"@[6] == 'o' && "date_format"@[7] == 'r' && "date_format"@[8] == 'm' && "date_format"@[9] == 'a' && "date_format"@[10] == 't');
    assert("show-dividends"@.len() == 14 && "show-dividends"@[0] == 's' && "show-dividends"@[1] == 'h' && "show-dividends"@[2] == 'o' && "show-dividends"@[3] == 'w' && "show-dividends"@[4] == '-' && "show-dividends"@[5] == 'd' && "show-dividends"@[6] == 'i' && "show-dividends"@[7] == 'v' && "show-dividends"@[8] == 'i' && "show-dividends"@[9] == 'd' && "show-dividends"@[10] == 'e' && "show-dividends"@[11] == 'n' && "show-dividends"@[12] == 'd' && "show-dividends"@[13] == 's');
    assert("show_dividends"@.len() == 14 && "show_dividends"@[0] == 's' && "show_dividends"@[1] == 'h' && "show_dividends"@[2] == 'o' && "show_dividends"@[3] == 'w' && "show_dividends"@[4] == '_' && "show_dividends"@[5] == 'd' && "show_dividends"@[6] == 'i' && "show_dividends"@[7] == 'v' && "show_dividends"@[8] == 'i' && "show_dividends"@[9] == 'd' && "show_dividends"@[10] == 'e' && "show_dividends"@[11] == 'n' && "show_dividends"@[12] == 'd' && "show_dividends"@[13] == 's');
    assert("color-output"@.len() == 12 && "color-output"@[0] == 'c' && "color-output"@[1] == 'o' && "color-output"@[2] == 'l' && "color-output"@[3] == 'o' && "color-output"@[4] == 'r' && "color-output"@[5] == '-' && "color-output"@[6] == 'o' && "color-output"@[7] == 'u' && "color-output"@[8] == 't' && "color-output"@[9] == 'p' && "color-output"@[10] == 'u' && "color-output"@[11] == 't');
    assert("color_output"@.len() == 12 && "color_output"@[0] == 'c' && "color_output"@[1] == 'o' && "color_output"@[2] == 'l' && "color_output"@[3] == 'o' && "color_output"@[4] == 'r' && "color_output"@[5] == '_' && "color_output"@[6] == 'o' && "color_output"@[7] == 'u' && "color_output"@[8] == 't' && "color_output"@[9] == 'p' && "color_output"@[10] == 'u' && "color_output"@[11] == 't');
}

/// The symbol table of currency codes: each listed code shows its own
/// currency's sign; only the yen/yuan codes (JPY, CNY, CNH) and the
/// Scandinavian crowns (SEK, NOK, DKK) share one; any other code shows as
/// itself.
pub proof fn law_currency_symbol_table(code: Seq<char>)
    ensures
        symbol_of_code("USD"@) == "$"@,
        symbol_of_code("EUR"@) == "€"@,
        symbol_of_code("GBP"@) == "£"@,
        symbol_of_code("JPY"@) == "¥"@,
        symbol_of_code("CNY"@) == "¥"@,
        symbol_of_code("CNH"@) == "¥"@,
        symbol_of_code("CHF"@) == "Fr"@,
        symbol_of_code("CAD"@) == "CA$"@,
        symbol_of_code("AUD"@) == "A$"@,
        symbol_of_code("NZD"@) == "NZ$"@,
        symbol_of_code("SEK"@) == "kr"@,
        symbol_of_code("NOK"@) == "kr"@,
        symbol_of_code("DKK"@) == "kr"@,
        symbol_of_code("BRL"@) == "R$"@,
        symbol_of_code("INR"@) == "₹"@,
        symbol_of_code("KRW"@) == "₩"@,
        symbol_of_code("HKD"@) == "HK$"@,
        symbol_of_code("SGD"@) == "S$"@,
        symbol_of_code("MXN"@) == "MX$"@,
        symbol_of_code("PLN"@) == "zł"@,
        symbol_of_code("CZK"@) == "Kč"@,
        symbol_of_code("HUF"@) == "Ft"@,
        symbol_of_code("TRY"@) == "₺"@,
        symbol_of_code("RUB"@) == "₽"@,
        symbol_of_code("ZAR"@) == "R"@,
        symbol_of_code("BTC"@) == "₿"@,
        symbol_of_code("ETH"@) == "Ξ"@,
        !is_known_code(code) ==> symbol_of_code(code) == code,
{
    reveal_strlit("USD");
    reveal_strlit("EUR");
    reveal_strlit("GBP");
    reveal_strlit("JPY");
    reveal_strlit("CNY");
    reveal_strlit("CNH");
    reveal_strlit("CHF");
    reveal_strlit("CAD");
    reveal_strlit("AUD");
    reveal_strlit("NZD");
    reveal_strlit("SEK");
    reveal_strlit("NOK");
    reveal_strlit("DKK");
    reveal_strlit("BRL");
    reveal_strlit("INR");
    reveal_strlit("KRW");
    reveal_strlit("HKD");
    reveal_strlit("SGD");
    reveal_strlit("MXN");
    reveal_strlit("PLN");
    reveal_strlit("CZK");
    reveal_strlit("HUF");
    reveal_strlit("TRY");
    reveal_strlit("RUB");
    reveal_strlit("ZAR");
    reveal_strlit("BTC");
    reveal_strlit("ETH");
    assert("USD"@.len() == 3 && "USD"@[0] == 'U' && "USD"@[1] == 'S' && "USD"@[2] == 'D');
    assert("EUR"@.len() == 3 && "EUR"@[0] == 'E' && "EUR"@[1] == 'U' && "EUR"@[2] == 'R');
    assert("GBP"@.len() == 3 && "GBP"@[0] == 'G' && "GBP"@[1] == 'B' && "GBP"@[2] == 'P');
    assert("JPY"@.len() == 3 && "JPY"@[0] == 'J' && "JPY"@[1] == 'P' && "JPY"@[2] == 'Y');
    assert("CNY"@.len() == 3 && "CNY"@[0] == 'C' && "CNY"@[1] == 'N' && "CNY"@[2] == 'Y');
    assert("CNH"@.len() == 3 && "CNH"@[0] == 'C' && "CNH"@[1] == 'N' && "CNH"@[2] == 'H');
    assert("CHF"@.len() == 3 && "CHF"@[0] == 'C' && "CHF"@[1] == 'H' && "CHF"@[2] == 'F');
    assert("CAD"@.len() == 3 && "CAD"@[0] == 'C' && "CAD"@[1] == 'A' && "CAD"@[2] == 'D');
    assert("AUD"@.len() == 3 && "AUD"@[0] == 'A' && "AUD"@[1] == 'U' && "AUD"@[2] == 'D');
    assert("NZD"@.len() == 3 && "NZD"@[0] == 'N' && "NZD"@[1] == 'Z' && "NZD"@[2] == 'D');
    assert("SEK"@.len() == 3 && "SEK"@[0] == 'S' && "SEK"@[1] == 'E' && "SEK"@[2] == 'K');
    assert("NOK"@.len() == 3 && "NOK"@[0] == 'N' && "NOK"@[1] == 'O' && "NOK"@[2] == 'K');
    assert("DKK"@.len() == 3 && "DKK"@[0] == 'D' && "DKK"@[1] == 'K' && "DKK"@[2] == 'K');
    assert("BRL"@.len() == 3 && "BRL"@[0] == 'B' && "BRL"@[1] == 'R' && "BRL"@[2] == 'L');
    assert("INR"@.len() == 3 && "INR"@[0] == 'I' && "INR"@[1] == 'N' && "INR"@[2] == 'R');
    assert("KRW"@.len() == 3 && "KRW"@[0] == 'K' && "KRW"@[1] == 'R' && "KRW"@[2] == 'W');
    assert("HKD"@.len() == 3 && "HKD"@[0] == 'H' && "HKD"@[1] == 'K' && "HKD"@[2] == 'D');
    assert("SGD"@.len() == 3 && "SGD"@[0] == 'S' && "SGD"@[1] == 'G' && "SGD"@[2] == 'D');
    assert("MXN"@.len() == 3 && "MXN"@[0] == 'M' && "MXN"@[1] == 'X' && "MXN"@[2] == 'N');
    assert("PLN"@.len() == 3 && "PLN"@[0] == 'P' && "PLN"@[1] == 'L' && "PLN"@[2] == 'N');
    assert("CZK"@.len() == 3 && "CZK"@[0] == 'C' && "CZK"@[1] == 'Z' && "CZK"@[2] == 'K');
    assert("HUF"@.len() == 3 && "HUF"@[0] == 'H' && "HUF"@[1] == 'U' && "HUF"@[2] == 'F');
    assert("TRY"@.len() == 3 && "TRY"@[0] == 'T' && "TRY"@[1] == 'R' && "TRY"@[2] == 'Y');
    assert("RUB"@.len() == 3 && "RUB"@[0] == 'R' && "RUB"@[1] == 'U' && "RUB"@[2] == 'B');
    assert("ZAR"@.len() == 3 && "ZAR"@[0] == 'Z' && "ZAR"@[1] == 'A' && "ZAR"@[2] == 'R');
    assert("BTC"@.len() == 3 && "BTC"@[0] == 'B' && "BTC"@[1] == 'T' && "BTC"@[2] == 'C');
    assert("ETH"@.len() == 3 && "ETH"@[0] == 'E' && "ETH"@[1] == 'T' && "ETH"@[2] == 'H');
}

} // verus!

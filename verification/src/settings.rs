//! Settings, as the environment writes them.

use vstd::prelude::*;
use vstd::string::*;

use crate::automations::host;
use crate::automations::host::{ask_standing, Answer, AnswerModel, Ask, AskModel, Oracle, Standing};
use crate::devices::THOUSAND;
use crate::text;
use crate::text::{parse_unsigned, split_list};

verus! {

/// How often devices are read where nothing is set.
pub const DEFAULT_REFRESH_SECONDS: u64 = 10;

/// How often devices are searched for where nothing is set.
pub const DEFAULT_SCAN_SECONDS: u64 = 60;

/// How long a search for devices lasts where nothing is set.
pub const DEFAULT_DISCOVERY_TIMEOUT_SECONDS: u64 = 5;

/// The price of energy where nothing is set: the bit pattern of 27.03 as a
/// double.
pub const DEFAULT_ENERGY_PRICE: u64 = 0x403B_07AE_147A_E148;

/// The address that the board listens on where nothing is set: no other machine
/// can reach it.
pub fn default_bind_address() -> (s: String)
    ensures
        s@ == "127.0.0.1:8787"@,
{
    "127.0.0.1:8787".to_owned()
}

/// The entries of a list that commas or white space separate.
pub fn parse_string_list(value: &str) -> (r: Vec<String>)
    ensures
        r.deep_view() == text::list_entries(value@),
{
    split_list(value)
}

/// A whole number, or the default where nothing is set; fails where what is set
/// is no number.
pub open spec fn number_setting(name: Seq<char>, value: Option<Seq<char>>, default: u64) -> Result<u64, Seq<char>> {
    match value {
        None => Ok(default),
        Some(s) => match text::unsigned(s, u64::MAX as nat) {
            Some(n) => Ok(n as u64),
            None => Err(name + " must be an integer"@),
        },
    }
}

/// A whole number, or the default where nothing is set.
pub fn optional_u64_setting(name: &str, value: Option<String>, default: u64) -> (r: Result<u64, String>)
    ensures
        match r {
            Ok(n) => number_setting(name@, value.deep_view(), default) == Ok::<u64, Seq<char>>(n),
            Err(m) => number_setting(name@, value.deep_view(), default) == Err::<u64, Seq<char>>(m@),
        },
{
    match value {
        None => Ok(default),
        Some(s) => match parse_unsigned(s.as_str(), u64::MAX) {
            Some(n) => Ok(n),
            None => {
                let mut m = name.to_owned();
                m.append(" must be an integer");
                Err(m)
            },
        },
    }
}

/// A list, or none where nothing is set.
pub open spec fn list_setting(value: Option<Seq<char>>) -> Seq<Seq<char>> {
    match value {
        None => Seq::empty(),
        Some(s) => text::list_entries(s),
    }
}

/// A list, or none where nothing is set.
pub fn optional_string_list_setting(value: Option<String>) -> (r: Vec<String>)
    ensures
        r.deep_view() == list_setting(value.deep_view()),
{
    match value {
        None => {
            let none: Vec<String> = Vec::new();
            proof {
                assert(none.deep_view() =~= Seq::<Seq<char>>::empty());
            }
            none
        },
        Some(s) => parse_string_list(s.as_str()),
    }
}

/// Fails where a search for devices would last too short or too long.
pub fn check_discovery_timeout(seconds: u64) -> (r: Result<(), String>)
    ensures
        match r {
            Ok(_) => 1 <= seconds <= 60,
            Err(m) => !(1 <= seconds <= 60) && m@ == "FUSEBOX_DISCOVERY_TIMEOUT_SECONDS must be between 1 and 60"@,
        },
{
    if seconds < 1 || seconds > 60 {
        return Err("FUSEBOX_DISCOVERY_TIMEOUT_SECONDS must be between 1 and 60".to_owned());
    }
    Ok(())
}

/// Fails where devices would be searched for too often or too seldom.
pub fn check_scan_seconds(seconds: u64) -> (r: Result<(), String>)
    ensures
        match r {
            Ok(_) => 10 <= seconds <= 3600,
            Err(m) => !(10 <= seconds <= 3600) && m@ == "FUSEBOX_SCAN_SECONDS must be between 10 and 3600"@,
        },
{
    if seconds < 10 || seconds > 3600 {
        return Err("FUSEBOX_SCAN_SECONDS must be between 10 and 3600".to_owned());
    }
    Ok(())
}

/// The price of energy is a number from zero to one thousand.
pub open spec fn is_price(price: u64, o: Oracle) -> bool {
    &&& host::standing_in(o(AskModel::Compare(price, 0))) matches Some(s) && s != Standing::Less
    &&& host::standing_in(o(AskModel::Compare(price, THOUSAND))) matches Some(s) && s != Standing::Greater
}

/// Fails where the price of energy, a double, is no number from zero to one
/// thousand.
pub fn check_energy_price<H: Fn(Ask) -> Answer>(price: u64, host: &H) -> (r: Result<(), String>)
    requires
        host::faithful(*host),
    ensures
        match r {
            Ok(_) => is_price(price, host::oracle(*host)),
            Err(m) => !is_price(price, host::oracle(*host)) && m@
                == "FUSEBOX_ENERGY_PRICE_PENCE_PER_KWH must be between 0 and 1000"@,
        },
{
    let low = match ask_standing(host, Ask::Compare(price, 0)) {
        Some(s) => s != Standing::Less,
        None => false,
    };
    let high = match ask_standing(host, Ask::Compare(price, THOUSAND)) {
        Some(s) => s != Standing::Greater,
        None => false,
    };
    if low && high {
        Ok(())
    } else {
        Err("FUSEBOX_ENERGY_PRICE_PENCE_PER_KWH must be between 0 and 1000".to_owned())
    }
}

/// Where the state's file lies.
#[derive(Debug, Clone, Copy, PartialEq, Eq, Structural)]
pub enum StateHome {
    /// At the path that is set.
    Given,
    /// In `fusebox` in the directory for configurations.
    ConfigHome,
    /// In `.config/fusebox` in the home directory.
    Home,
}

/// Where the state's file lies if no path is set, given whether the directory
/// for configurations and the home directory are known.
pub fn default_state_home(config_home_set: bool, home_set: bool) -> (r: Result<StateHome, String>)
    ensures
        match r {
            Ok(h) => h == (if config_home_set {
                StateHome::ConfigHome
            } else {
                StateHome::Home
            }) && (config_home_set || home_set),
            Err(m) => !config_home_set && !home_set && m@
                == "HOME or XDG_CONFIG_HOME must be set, or set FUSEBOX_STATE_PATH explicitly"@,
        },
{
    if config_home_set {
        return Ok(StateHome::ConfigHome);
    }
    if home_set {
        return Ok(StateHome::Home);
    }
    Err("HOME or XDG_CONFIG_HOME must be set, or set FUSEBOX_STATE_PATH explicitly".to_owned())
}

/// Where the state's file lies: at the path that is set, if one is; otherwise
/// where it lies by default, which needs one of the two directories.
pub fn state_home(path_set: bool, config_home_set: bool, home_set: bool) -> (r: Result<StateHome, String>)
    ensures
        match r {
            Ok(h) => h == (if path_set {
                StateHome::Given
            } else if config_home_set {
                StateHome::ConfigHome
            } else {
                StateHome::Home
            }) && (path_set || config_home_set || home_set),
            Err(m) => !path_set && !config_home_set && !home_set && m@
                == "HOME or XDG_CONFIG_HOME must be set, or set FUSEBOX_STATE_PATH explicitly"@,
        },
{
    if path_set {
        return Ok(StateHome::Given);
    }
    default_state_home(config_home_set, home_set)
}

/// A number that is set is the number that its digits write, what is not set is
/// the default, and anything else is an error that names the setting.
pub proof fn numbers_are_read_or_default(name: Seq<char>, n: u64, default: u64, s: Seq<char>)
    ensures
        number_setting(name, None, default) == Ok::<u64, Seq<char>>(default),
        number_setting(name, Some(text::decimal(n as nat)), default) == Ok::<u64, Seq<char>>(n),
        number_setting(name, Some(s), default) matches Err(m) ==> text::begins(m, name),
        number_setting(name, Some(Seq::empty()), default) is Err,
        s.len() > 0 && !text::is_digit(s[0]) && s[0] != '+' ==> number_setting(name, Some(s), default) is Err,
        list_setting(None).len() == 0,
        list_setting(Some(s)) == text::list_entries(s),
{
    text::unsigned_reads_decimal(n as nat, u64::MAX as nat);
    text::ends_are_what_stands_there(name, " must be an integer"@, s);
    text::numbers_are_digits(n as nat, u64::MAX as nat, s, 0);
}

/// A price is taken where it compares with zero as no less and with a thousand
/// as no greater.
pub proof fn prices_have_bounds(price: u64, o: Oracle, low: Standing, high: Standing)
    requires
        o(AskModel::Compare(price, 0)) == AnswerModel::Standing(Some(low)),
        o(AskModel::Compare(price, 0x408F_4000_0000_0000)) == AnswerModel::Standing(Some(high)),
    ensures
        is_price(price, o) <==> (low is Equal || low is Greater) && (high is Equal || high is Less),
{
}

/// A list is cut at commas and at white space, and no entry holds either or is
/// empty.
pub proof fn lists_are_cut_at_commas_and_space(s: Seq<char>, i: int, k: int)
    requires
        0 <= i < list_setting(Some(s)).len(),
        0 <= k < list_setting(Some(s))[i].len(),
    ensures
        list_setting(Some(s))[i][k] != ',' && !text::is_white(list_setting(Some(s))[i][k]),
        list_setting(Some(s)).flatten() == s.filter(|c: char| !(c == ',' || text::is_white(c))),
{
    let is_sep = |c: char| c == ',' || text::is_white(c);
    text::runs_hold_what_is_between(s, is_sep);
    assert(!is_sep(list_setting(Some(s))[i][k]));
    let keep = |c: char| !is_sep(c);
    let keep_plain = |c: char| !(c == ',' || text::is_white(c));
    assert(keep =~= keep_plain);
}

/// The bounds that the settings have, and the defaults, which lie within them.
pub proof fn settings_have_bounds(
    seconds: u64,
    timeout: Result<(), String>,
    scan: Result<(), String>,
)
    requires
        call_ensures(check_discovery_timeout, (seconds,), timeout),
        call_ensures(check_scan_seconds, (seconds,), scan),
    ensures
        timeout is Ok <==> 1 <= seconds <= 60,
        scan is Ok <==> 10 <= seconds <= 3600,
        DEFAULT_DISCOVERY_TIMEOUT_SECONDS == 5,
        DEFAULT_SCAN_SECONDS == 60,
        DEFAULT_REFRESH_SECONDS == 10,
{
}

} // verus!

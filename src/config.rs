//! Service settings, read from the values of named environment variables.
use vstd::prelude::*;
use crate::freq::{all_digits, digits_value, is_digit, lemma_digits_push, lemma_prefix_value_le, lemma_too_large};

verus! {

pub const DEFAULT_PORT: u16 = 8080;

pub const DEFAULT_INVITE_EXPIRY_DAYS: i64 = 7;

#[derive(Debug)]
pub struct Config {
    pub database_url: String,
    pub admin_token: String,
    pub port: u16,
    pub base_url: Option<String>,
    pub invite_base_url: String,
    pub invite_expiry_days: i64,
    pub spots_enabled: bool,
    pub pota_aggregator_enabled: bool,
    pub rbn_aggregator_enabled: bool,
    pub sota_aggregator_enabled: bool,
}

/// Why settings could not be read; the text names the variable.
#[derive(Debug)]
pub enum ConfigError {
    Missing(&'static str),
    Invalid(&'static str),
}

/// The values of the variables the settings come from; `None` where unset.
#[derive(Debug)]
pub struct ConfigVars {
    pub database_url: Option<String>,
    pub admin_token: Option<String>,
    pub port: Option<String>,
    pub base_url: Option<String>,
    pub invite_base_url: Option<String>,
    pub invite_expiry_days: Option<String>,
    pub spots_enabled: Option<String>,
    pub pota_aggregator_enabled: Option<String>,
    pub rbn_aggregator_enabled: Option<String>,
    pub sota_aggregator_enabled: Option<String>,
}

/// Digits after an optional sign: whether the sign is '-', and the digits.
pub open spec fn sign_split(s: Seq<char>) -> (bool, Seq<char>) {
    if s.len() > 0 && s[0] == '+' {
        (false, s.skip(1))
    } else if s.len() > 0 && s[0] == '-' {
        (true, s.skip(1))
    } else {
        (false, s)
    }
}

/// The integer that decimal text with an optional sign denotes.
pub open spec fn decimal_int(s: Seq<char>) -> Option<int> {
    let (neg, d) = sign_split(s);
    if d.len() > 0 && all_digits(d) {
        Some(if neg { -digits_value(d) } else { digits_value(d) as int })
    } else {
        None
    }
}

pub open spec fn i64_of(s: Seq<char>) -> Option<i64> {
    match decimal_int(s) {
        Some(v) => if i64::MIN <= v <= i64::MAX { Some(v as i64) } else { None },
        None => None,
    }
}

pub open spec fn u16_of(s: Seq<char>) -> Option<u16> {
    match decimal_int(s) {
        Some(v) => if !sign_split(s).0 && v <= u16::MAX { Some(v as u16) } else { None },
        None => None,
    }
}

/// `Some(true)` for "true", `Some(false)` for "false", else `None`.
pub open spec fn bool_of(s: Seq<char>) -> Option<bool> {
    if s == "true"@ {
        Some(true)
    } else if s == "false"@ {
        Some(false)
    } else {
        None
    }
}

/// The value of the digits of `s` from `start` on, when there are some and
/// they fit in a `u64`.
fn digits_from(s: &str, start: usize) -> (r: Option<u64>)
    requires
        start <= s@.len(),
    ensures
        ({
            let d = s@.skip(start as int);
            r == if d.len() > 0 && all_digits(d) && digits_value(d) <= u64::MAX {
                Some(digits_value(d) as u64)
            } else {
                None::<u64>
            }
        }),
{
    let n = s.unicode_len();
    let ghost d = s@.skip(start as int);
    if start == n {
        return None;
    }
    let mut acc: u64 = 0;
    let mut i: usize = start;
    while i < n
        invariant
            n == s@.len(),
            d == s@.skip(start as int),
            start <= i <= n,
            all_digits(d.take(i - start)),
            acc == digits_value(d.take(i - start)),
        decreases n - i,
    {
        let c = s.get_char(i);
        let ghost k = i - start;
        assert(d[k] == c);
        if !('0' <= c && c <= '9') {
            assert(!is_digit(d[k]));
            return None;
        }
        proof {
            assert(d.take(k + 1) =~= d.take(k).push(c));
            lemma_digits_push(d.take(k), c);
        }
        let v: u64 = (c as u32 - '0' as u32) as u64;
        if acc > (u64::MAX - v) / 10 {
            proof {
                lemma_too_large(acc as nat, v as nat, digits_value(d.take(k + 1)));
                lemma_prefix_value_le(d, k + 1);
            }
            return None;
        }
        acc = acc * 10 + v;
        i = i + 1;
    }
    proof {
        assert(d.take(n - start) =~= d);
    }
    Some(acc)
}

/// Reads decimal text with an optional sign as an `i64`.
pub fn parse_i64(s: &str) -> (r: Option<i64>)
    ensures
        r == i64_of(s@),
{
    let n = s.unicode_len();
    let (neg, start): (bool, usize) = if n > 0 && s.get_char(0) == '+' {
        (false, 1)
    } else if n > 0 && s.get_char(0) == '-' {
        (true, 1)
    } else {
        (false, 0)
    };
    proof {
        if start == 0 {
            assert(s@.skip(0) =~= s@);
        }
    }
    match digits_from(s, start) {
        Some(v) => {
            if neg {
                if v <= 9_223_372_036_854_775_808u64 {
                    Some((0 - (v as i128)) as i64)
                } else {
                    None
                }
            } else if v <= i64::MAX as u64 {
                Some(v as i64)
            } else {
                None
            }
        },
        None => {
            proof {
                let d = s@.skip(start as int);
                if d.len() > 0 && all_digits(d) {
                    assert(digits_value(d) > u64::MAX);
                }
            }
            None
        },
    }
}

/// Reads decimal text with an optional '+' as a `u16`.
pub fn parse_u16(s: &str) -> (r: Option<u16>)
    ensures
        r == u16_of(s@),
{
    let n = s.unicode_len();
    if n > 0 && s.get_char(0) == '-' {
        return None;
    }
    let start: usize = if n > 0 && s.get_char(0) == '+' { 1 } else { 0 };
    proof {
        if start == 0 {
            assert(s@.skip(0) =~= s@);
        }
    }
    match digits_from(s, start) {
        Some(v) => if v <= 65535 { Some(v as u16) } else { None },
        None => None,
    }
}

/// Reads "true" or "false".
pub fn parse_bool(s: &str) -> (r: Option<bool>)
    ensures
        r == bool_of(s@),
{
    let t = "true".to_owned();
    let f = "false".to_owned();
    let v = s.to_owned();
    if v.eq(&t) {
        Some(true)
    } else if v.eq(&f) {
        Some(false)
    } else {
        None
    }
}

pub open spec fn flag_of(v: Option<String>, default: bool) -> bool {
    match v {
        Some(s) => match bool_of(s@) {
            Some(b) => b,
            None => default,
        },
        None => default,
    }
}

fn flag(v: &Option<String>, default: bool) -> (r: bool)
    ensures
        r == flag_of(*v, default),
{
    match v {
        Some(s) => match parse_bool(s.as_str()) {
            Some(b) => b,
            None => default,
        },
        None => default,
    }
}

impl Config {
    /// Settings from variable values. `DATABASE_URL` and `ADMIN_TOKEN` are
    /// required; `PORT` (8080 when unset) and `INVITE_EXPIRY_DAYS` (7 when
    /// unset) must be numbers; the feature switches read "true" or "false" and
    /// fall back to their defaults (spots on, feeds off) on anything else.
    pub fn from_vars(vars: &ConfigVars) -> (r: Result<Config, ConfigError>)
        ensures
            vars.database_url is None ==> (r matches Err(ConfigError::Missing(name)) && name@ == "DATABASE_URL"@),
            vars.database_url is Some && vars.admin_token is None ==> (r matches Err(ConfigError::Missing(name))
                && name@ == "ADMIN_TOKEN"@),
            r matches Ok(c) ==> {
                &&& vars.database_url == Some(c.database_url)
                &&& vars.admin_token == Some(c.admin_token)
                &&& Some(c.port) == match vars.port {
                    Some(p) => u16_of(p@),
                    None => Some(DEFAULT_PORT),
                }
                &&& c.base_url == vars.base_url
                &&& match vars.invite_base_url {
                    Some(u) => c.invite_base_url == u,
                    None => c.invite_base_url@ == "https://activities.carrierwave.app"@,
                }
                &&& Some(c.invite_expiry_days) == match vars.invite_expiry_days {
                    Some(d) => i64_of(d@),
                    None => Some(DEFAULT_INVITE_EXPIRY_DAYS),
                }
                &&& c.spots_enabled == flag_of(vars.spots_enabled, true)
                &&& c.pota_aggregator_enabled == flag_of(vars.pota_aggregator_enabled, false)
                &&& c.rbn_aggregator_enabled == flag_of(vars.rbn_aggregator_enabled, false)
                &&& c.sota_aggregator_enabled == flag_of(vars.sota_aggregator_enabled, false)
            },
            vars.database_url is Some && vars.admin_token is Some && (vars.port matches Some(p) && u16_of(p@) is None)
                ==> (r matches Err(ConfigError::Invalid(m)) && m@ == "PORT must be a number"@),
            vars.database_url is Some && vars.admin_token is Some && !(vars.port matches Some(p) && u16_of(p@) is None)
                && (vars.invite_expiry_days matches Some(d) && i64_of(d@) is None) ==> (r matches Err(
                ConfigError::Invalid(m),
            ) && m@ == "INVITE_EXPIRY_DAYS must be a number"@),
            vars.database_url is Some && vars.admin_token is Some ==> (r is Ok <==> ({
                &&& match vars.port {
                    Some(p) => u16_of(p@) is Some,
                    None => true,
                }
                &&& match vars.invite_expiry_days {
                    Some(d) => i64_of(d@) is Some,
                    None => true,
                }
            })),
    {
        proof {
            reveal_strlit("true");
            reveal_strlit("false");
        }
        let database_url = match &vars.database_url {
            Some(v) => v.clone(),
            None => return Err(ConfigError::Missing("DATABASE_URL")),
        };
        let admin_token = match &vars.admin_token {
            Some(v) => v.clone(),
            None => return Err(ConfigError::Missing("ADMIN_TOKEN")),
        };
        let port = match &vars.port {
            Some(p) => match parse_u16(p.as_str()) {
                Some(v) => v,
                None => return Err(ConfigError::Invalid("PORT must be a number")),
            },
            None => DEFAULT_PORT,
        };
        let base_url = match &vars.base_url {
            Some(u) => Some(u.clone()),
            None => None,
        };
        let invite_base_url = match &vars.invite_base_url {
            Some(u) => u.clone(),
            None => "https://activities.carrierwave.app".to_owned(),
        };
        let invite_expiry_days = match &vars.invite_expiry_days {
            Some(d) => match parse_i64(d.as_str()) {
                Some(v) => v,
                None => return Err(ConfigError::Invalid("INVITE_EXPIRY_DAYS must be a number")),
            },
            None => DEFAULT_INVITE_EXPIRY_DAYS,
        };
        Ok(Config {
            database_url,
            admin_token,
            port,
            base_url,
            invite_base_url,
            invite_expiry_days,
            spots_enabled: flag(&vars.spots_enabled, true),
            pota_aggregator_enabled: flag(&vars.pota_aggregator_enabled, false),
            rbn_aggregator_enabled: flag(&vars.rbn_aggregator_enabled, false),
            sota_aggregator_enabled: flag(&vars.sota_aggregator_enabled, false),
        })
    }
}

} // verus!

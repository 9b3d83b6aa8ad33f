//! Connection settings, built from the values of the environment variables
//! `ZBX_URL`, `ZBX_USER`, `ZBX_PASSWORD`, `ZBX_TIMEOUT`, `ZBX_INSECURE`,
//! `ZBX_TZ`, `PATROL_CONCURRENCY` and `PATROL_RATE_LIMIT`.
use vstd::prelude::*;
use crate::errors::PatrolError;
use crate::text::{
    char_is, concat, eq_ascii_nocase, eq_ignore_ascii_case, has_prefix, owned, parse_u32,
    parse_u64, parse_usize, parsed_u32, parsed_u64, parsed_usize, starts_with, str_eq,
    strip_right, trim_end_char,
};
use crate::timerange::{tz_known, tz_valid};

verus! {

/// Validated connection settings.
#[derive(Debug, Clone)]
pub struct AppConfig {
    /// Base URL without trailing `/`.
    pub url: String,
    pub user: String,
    pub password: String,
    /// Request timeout in seconds.
    pub timeout: u64,
    /// Skip TLS certificate verification.
    pub insecure: bool,
    pub tz_name: String,
    /// Hosts inspected at once, 1 to 64.
    pub concurrency: usize,
    /// API requests per second, at least 1.
    pub rate_limit_per_sec: u32,
    /// The full JSON-RPC endpoint: `url` + `/api_jsonrpc.php`.
    pub endpoint: String,
}

/// The zone used when `ZBX_TZ` is unset or names no known zone.
pub open spec fn default_tz() -> Seq<char> {
    "Asia/Shanghai"@
}

/// `ZBX_TIMEOUT`: a `u64` number of seconds, 30 when unset or unreadable.
pub open spec fn timeout_of(v: Option<Seq<char>>) -> u64 {
    match v {
        Some(s) => match parsed_u64(s) {
            Some(n) => n,
            None => 30,
        },
        None => 30,
    }
}

/// `ZBX_INSECURE`: `true` in any ASCII case, or `1`.
pub open spec fn insecure_of(v: Option<Seq<char>>) -> bool {
    match v {
        Some(s) => eq_ascii_nocase(s, "true"@) || s == "1"@,
        None => false,
    }
}

/// `ZBX_TZ`, `Asia/Shanghai` when unset.
pub open spec fn tz_name_of(v: Option<Seq<char>>) -> Seq<char> {
    match v {
        Some(s) => s,
        None => default_tz(),
    }
}

/// `PATROL_CONCURRENCY`: a number from 1 to 64, else 8.
pub open spec fn concurrency_of(v: Option<Seq<char>>) -> usize {
    match v {
        Some(s) => match parsed_usize(s) {
            Some(n) => if 1 <= n && n <= 64 {
                n
            } else {
                8
            },
            None => 8,
        },
        None => 8,
    }
}

/// `PATROL_RATE_LIMIT`: a `u32` of at least 1, else 10.
pub open spec fn rate_of(v: Option<Seq<char>>) -> u32 {
    match v {
        Some(s) => match parsed_u32(s) {
            Some(n) => if n >= 1 {
                n
            } else {
                10
            },
            None => 10,
        },
        None => 10,
    }
}

/// The base URL: `ZBX_URL` without its trailing slashes.
pub open spec fn base_url(url: Seq<char>) -> Seq<char> {
    strip_right(url, char_is('/'))
}

/// The view of an optional string.
pub open spec fn opt_view(v: Option<String>) -> Option<Seq<char>> {
    match v {
        Some(s) => Some(s@),
        None => None,
    }
}

/// The error text for a base URL that does not start with `http`.
pub open spec fn bad_url_message(base: Seq<char>) -> Seq<char> {
    "ZBX_URL 必须以 http(s):// 开头："@ + base
}

/// `value` of the optional string `v`, or `key` as a missing variable.
fn required(v: Option<String>, key: &str) -> (r: Result<String, PatrolError>)
    ensures
        match v {
            Some(s) => r == Ok::<String, PatrolError>(s),
            None => (r matches Err(PatrolError::MissingEnv(k)) && k@ == key@),
        },
{
    match v {
        Some(s) => Ok(s),
        None => Err(PatrolError::MissingEnv(owned(key))),
    }
}

impl AppConfig {
    /// The settings made from the variables' values (`None` for an unset
    /// variable): the first of `ZBX_URL`, `ZBX_USER`, `ZBX_PASSWORD` that is
    /// unset is reported as missing; a base URL that does not start with
    /// `http` is a configuration error; every optional value falls back to
    /// its default.
    pub fn from_values(
        url: Option<String>,
        user: Option<String>,
        password: Option<String>,
        timeout: Option<String>,
        insecure: Option<String>,
        tz: Option<String>,
        concurrency: Option<String>,
        rate_limit: Option<String>,
    ) -> (r: Result<AppConfig, PatrolError>)
        ensures
            url is None ==> (r matches Err(PatrolError::MissingEnv(k)) && k@ == "ZBX_URL"@),
            url is Some && user is None ==> (r matches Err(PatrolError::MissingEnv(k)) && k@
                == "ZBX_USER"@),
            url is Some && user is Some && password is None ==> (r matches Err(
                PatrolError::MissingEnv(k),
            ) && k@ == "ZBX_PASSWORD"@),
            url is Some && user is Some && password is Some && !has_prefix(
                base_url(url->0@),
                "http"@,
            ) ==> (r matches Err(PatrolError::Config(m)) && m@ == bad_url_message(
                base_url(url->0@),
            )),
            url is Some && user is Some && password is Some && has_prefix(
                base_url(url->0@),
                "http"@,
            ) ==> (r matches Ok(c) && c.url@ == base_url(url->0@) && c.endpoint@ == base_url(
                url->0@,
            ) + "/api_jsonrpc.php"@ && c.user == user->0 && c.password == password->0
                && c.timeout == timeout_of(opt_view(timeout)) && c.insecure == insecure_of(
                opt_view(insecure),
            ) && c.tz_name@ == tz_name_of(opt_view(tz)) && c.concurrency == concurrency_of(
                opt_view(concurrency),
            ) && c.rate_limit_per_sec == rate_of(opt_view(rate_limit))),
    {
        let url = match required(url, "ZBX_URL") {
            Ok(s) => s,
            Err(e) => return Err(e),
        };
        let user = match required(user, "ZBX_USER") {
            Ok(s) => s,
            Err(e) => return Err(e),
        };
        let password = match required(password, "ZBX_PASSWORD") {
            Ok(s) => s,
            Err(e) => return Err(e),
        };
        let timeout_secs: u64 = match &timeout {
            Some(s) => match parse_u64(s.as_str()) {
                Some(n) => n,
                None => 30,
            },
            None => 30,
        };
        let insecure_flag: bool = match &insecure {
            Some(s) => eq_ignore_ascii_case(s.as_str(), "true") || str_eq(s.as_str(), "1"),
            None => false,
        };
        proof {
            reveal_strlit("1");
            reveal_strlit("true");
        }
        let tz_name = match tz {
            Some(s) => s,
            None => owned("Asia/Shanghai"),
        };
        let conc: usize = match &concurrency {
            Some(s) => match parse_usize(s.as_str()) {
                Some(n) => if 1 <= n && n <= 64 {
                    n
                } else {
                    8
                },
                None => 8,
            },
            None => 8,
        };
        let rate: u32 = match &rate_limit {
            Some(s) => match parse_u32(s.as_str()) {
                Some(n) => if n >= 1 {
                    n
                } else {
                    10
                },
                None => 10,
            },
            None => 10,
        };
        let base = trim_end_char(url.as_str(), '/');
        if !starts_with(base.as_str(), "http") {
            return Err(PatrolError::Config(concat("ZBX_URL 必须以 http(s):// 开头：", base.as_str())));
        }
        let endpoint = concat(base.as_str(), "/api_jsonrpc.php");
        Ok(AppConfig {
            url: base,
            user,
            password,
            timeout: timeout_secs,
            insecure: insecure_flag,
            tz_name,
            concurrency: conc,
            rate_limit_per_sec: rate,
            endpoint,
        })
    }

    /// The zone name to use: `tz_name` when chrono-tz knows it, else
    /// `Asia/Shanghai`.
    pub fn tz(&self) -> (r: String)
        ensures
            tz_valid(self.tz_name@) ==> r@ == self.tz_name@,
            !tz_valid(self.tz_name@) ==> r@ == default_tz(),
    {
        if tz_known(self.tz_name.as_str()) {
            owned(self.tz_name.as_str())
        } else {
            owned("Asia/Shanghai")
        }
    }
}

} // verus!

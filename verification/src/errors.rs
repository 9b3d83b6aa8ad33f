//! Error kinds and the process exit codes they map to: 2 for configuration or
//! credentials, 3 for network or API failures.
use vstd::prelude::*;
use crate::text::{concat, contains, contains_seq, to_lowercase, unicode_lowercase};

verus! {

/// The errors of an inspection run.
#[derive(Debug, Clone)]
pub enum PatrolError {
    /// Missing or malformed settings, wrong password and the like.
    Config(String),
    /// A required environment variable is missing.
    MissingEnv(String),
    /// Login refused, or the session expired and could not be renewed.
    Auth(String),
    /// Unreachable server, timeout, HTTP failure.
    Network(String),
    /// The Zabbix API answered with an error.
    Api(String),
}

/// The exit code that each error kind maps to.
pub open spec fn exit_code_of(e: PatrolError) -> i32 {
    match e {
        PatrolError::Config(_) | PatrolError::MissingEnv(_) | PatrolError::Auth(_) => 2,
        PatrolError::Network(_) | PatrolError::Api(_) => 3,
    }
}

/// A lower-cased login failure message that names refused credentials or a
/// missing permission.
pub open spec fn names_refusal(lower: Seq<char>) -> bool {
    ||| contains_seq(lower, "name or password"@)
    ||| contains_seq(lower, "login name or password"@)
    ||| contains_seq(lower, "权限"@)
    ||| contains_seq(lower, "permission"@)
    ||| contains_seq(lower, "api access"@)
}

/// The kind given to a failed first login with message `msg`, whose lower-case
/// form is `lower`.
pub open spec fn login_failure_kind(msg: String, lower: Seq<char>) -> PatrolError {
    if names_refusal(lower) {
        PatrolError::Auth(msg)
    } else {
        PatrolError::Network(msg)
    }
}

/// The text shown for an error.
pub open spec fn message_of(e: PatrolError) -> Seq<char> {
    match e {
        PatrolError::Config(s) => "配置错误："@ + s@,
        PatrolError::MissingEnv(s) => "缺少环境变量 "@ + s@
            + "（终端环境可直接运行 zbxpatrol 交互初始化，配置保存到 ~/.zbxpatrol/config.env）"@,
        PatrolError::Auth(s) => "认证失败："@ + s@,
        PatrolError::Network(s) => "网络或 API 错误："@ + s@,
        PatrolError::Api(s) => "Zabbix API 错误："@ + s@,
    }
}

impl PatrolError {
    /// The process exit code for this error: 2 for configuration, missing
    /// settings and authentication, 3 for network and API failures.
    pub fn exit_code(&self) -> (c: i32)
        ensures
            c == exit_code_of(*self),
    {
        match self {
            PatrolError::Config(_) | PatrolError::MissingEnv(_) | PatrolError::Auth(_) => 2,
            PatrolError::Network(_) | PatrolError::Api(_) => 3,
        }
    }

    /// Tells a refused login (wrong credentials, missing permission) from a
    /// network problem, by the message of the failed first login.
    pub fn from_login_failure(msg: String) -> (e: PatrolError)
        ensures
            e == login_failure_kind(msg, unicode_lowercase(msg@)),
    {
        let lower = to_lowercase(msg.as_str());
        Self::classify_login_failure(msg, lower.as_str())
    }

    /// The kind of a failed first login, given its message and the lower-case
    /// form of that message.
    pub fn classify_login_failure(msg: String, lower: &str) -> (e: PatrolError)
        ensures
            e == login_failure_kind(msg, lower@),
    {
        if contains(lower, "name or password") || contains(lower, "login name or password")
            || contains(lower, "权限") || contains(lower, "permission") || contains(lower, "api access") {
            PatrolError::Auth(msg)
        } else {
            PatrolError::Network(msg)
        }
    }

    /// The text shown for this error.
    pub fn message(&self) -> (r: String)
        ensures
            r@ == message_of(*self),
    {
        match self {
            PatrolError::Config(s) => concat("配置错误：", s.as_str()),
            PatrolError::MissingEnv(s) => {
                let a = concat("缺少环境变量 ", s.as_str());
                concat(
                    a.as_str(),
                    "（终端环境可直接运行 zbxpatrol 交互初始化，配置保存到 ~/.zbxpatrol/config.env）",
                )
            },
            PatrolError::Auth(s) => concat("认证失败：", s.as_str()),
            PatrolError::Network(s) => concat("网络或 API 错误：", s.as_str()),
            PatrolError::Api(s) => concat("Zabbix API 错误：", s.as_str()),
        }
    }
}

/// A lower-cased API error message that says the session or the credentials
/// were refused.
pub open spec fn names_auth_failure(lower: Seq<char>) -> bool {
    ||| contains_seq(lower, "not authorized"@)
    ||| contains_seq(lower, "unauthorized"@)
    ||| contains_seq(lower, "session terminated"@)
    ||| contains_seq(lower, "not authorised"@)
    ||| contains_seq(lower, "api access"@)
    ||| contains_seq(lower, "login name or password"@)
}

/// Whether an API error message means that the session must be renewed
/// (compared in lower case).
pub fn is_auth_error(msg: &str) -> (r: bool)
    ensures
        r == names_auth_failure(unicode_lowercase(msg@)),
{
    let m = to_lowercase(msg);
    let l = m.as_str();
    contains(l, "not authorized") || contains(l, "unauthorized") || contains(l, "session terminated")
        || contains(l, "not authorised") || contains(l, "api access") || contains(
        l,
        "login name or password",
    )
}

} // verus!

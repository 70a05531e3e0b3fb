//! The service's settings, from the values its environment gives.

use vstd::prelude::*;

verus! {

/// The service's settings.
#[derive(Debug, Clone)]
pub struct Config {
    /// The address to listen on, `host:port`; it is read as a socket address
    /// when the server binds.
    pub bind_addr: String,
    pub log_level: String,
    pub environment: String,
    /// Base URL of the srvcs-xor dependency.
    pub xor_url: String,
    /// Base URL of the srvcs-not dependency.
    pub not_url: String,
}

/// The value given, or the default where none is.
pub open spec fn given_or(value: Option<String>, default: Seq<char>) -> Seq<char> {
    match value {
        Some(v) => v@,
        None => default,
    }
}

fn or_default(value: Option<String>, default: &str) -> (s: String)
    ensures
        s@ == given_or(value, default@),
        value matches Some(v) ==> s@ == v@,
        value is None ==> s@ == default@,
{
    match value {
        Some(v) => v,
        None => default.to_owned(),
    }
}

impl Config {
    /// The settings from the given values, each missing one replaced by its
    /// default: `0.0.0.0:8080`, `info,tower_http=info`, `development`, and
    /// `http://127.0.0.1:8080` for both dependencies.
    pub fn from_vars(
        bind: Option<String>,
        log: Option<String>,
        env: Option<String>,
        xor_url: Option<String>,
        not_url: Option<String>,
    ) -> (config: Config)
        ensures
            config.bind_addr@ == given_or(bind, "0.0.0.0:8080"@),
            bind matches Some(given) ==> config.bind_addr@ == given@,
            bind is None ==> config.bind_addr@ == "0.0.0.0:8080"@,
            config.log_level@ == given_or(log, "info,tower_http=info"@),
            log matches Some(given) ==> config.log_level@ == given@,
            log is None ==> config.log_level@ == "info,tower_http=info"@,
            config.environment@ == given_or(env, "development"@),
            env matches Some(given) ==> config.environment@ == given@,
            env is None ==> config.environment@ == "development"@,
            config.xor_url@ == given_or(xor_url, "http://127.0.0.1:8080"@),
            xor_url matches Some(given) ==> config.xor_url@ == given@,
            xor_url is None ==> config.xor_url@ == "http://127.0.0.1:8080"@,
            config.not_url@ == given_or(not_url, "http://127.0.0.1:8080"@),
            not_url matches Some(given) ==> config.not_url@ == given@,
            not_url is None ==> config.not_url@ == "http://127.0.0.1:8080"@,
    {
        Config {
            bind_addr: or_default(bind, "0.0.0.0:8080"),
            log_level: or_default(log, "info,tower_http=info"),
            environment: or_default(env, "development"),
            xor_url: or_default(xor_url, "http://127.0.0.1:8080"),
            not_url: or_default(not_url, "http://127.0.0.1:8080"),
        }
    }
}

/// A given value is kept exactly as it is, whatever it holds; only a missing
/// value is replaced, and by the default.
pub proof fn lemma_given_value_kept(value: Option<String>, default: Seq<char>)
    ensures
        value matches Some(v) ==> given_or(value, default) == v@,
        value is None ==> given_or(value, default) == default,
{
}

} // verus!

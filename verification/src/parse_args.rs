//! What the command line asks for, once the flag values are in hand: a
//! stored profile, explicit connection options (absent ones filled with
//! defaults), or nothing.  Reading the flags themselves is the caller's
//! affair.

use vstd::prelude::*;
use vstd::string::StringExecFns;
use crate::connection_options::ConnectionOptions;

verus! {

/// The configuration the command line selects.
pub enum Config {
    /// No connection flags were given.
    Nothing,
    /// A stored profile was named.
    Profile(String),
    /// Explicit connection options were given.
    ConnectionOptions(ConnectionOptions),
}

/// The fallback user and database name: the login name from the
/// environment, or `postgres` without one.
pub open spec fn default_name(user_env: Option<String>) -> Seq<char> {
    match user_env {
        Option::Some(u) => u@,
        Option::None => "postgres"@,
    }
}

/// Builds the configuration from the flag values: a named profile wins;
/// otherwise any given connection flag yields connection options, with
/// `localhost`, `5432` and the login name filling the absent ones; with no
/// flags at all, nothing is selected.
pub fn build_config(
    profile: Option<String>,
    dbname: Option<String>,
    host: Option<String>,
    port: Option<String>,
    user: Option<String>,
    user_env: Option<String>,
) -> (r: Config)
    ensures
        profile matches Some(p) ==> r matches Config::Profile(q) && q@ == p@,
        profile is None && (dbname is Some || host is Some || port is Some || user is Some)
            ==> (r matches Config::ConnectionOptions(c) && c.dbname@ == (match dbname {
            Option::Some(d) => d@,
            Option::None => default_name(user_env),
        }) && c.host@ == (match host {
            Option::Some(h) => h@,
            Option::None => "localhost"@,
        }) && c.port@ == (match port {
            Option::Some(p) => p@,
            Option::None => "5432"@,
        }) && c.user@ == (match user {
            Option::Some(u) => u@,
            Option::None => default_name(user_env),
        })),
        profile is None && dbname is None && host is None && port is None && user is None
            ==> r matches Config::Nothing,
{
    match profile {
        Some(p) => Config::Profile(p),
        None => {
            if dbname.is_some() || host.is_some() || port.is_some() || user.is_some() {
                let username = match user_env {
                    Some(u) => u,
                    None => default_string("postgres"),
                };
                let c = ConnectionOptions {
                    dbname: match dbname {
                        Some(d) => d,
                        None => username.clone(),
                    },
                    host: match host {
                        Some(h) => h,
                        None => default_string("localhost"),
                    },
                    port: match port {
                        Some(p) => p,
                        None => default_string("5432"),
                    },
                    user: match user {
                        Some(u) => u,
                        None => username,
                    },
                };
                Config::ConnectionOptions(c)
            } else {
                Config::Nothing
            }
        },
    }
}

/// An owned copy of a fixed default.
fn default_string(s: &str) -> (r: String)
    ensures
        r@ == s@,
{
    String::from_str(s)
}

} // verus!

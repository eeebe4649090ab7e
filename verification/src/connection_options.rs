//! Connection parameters, and their keyword/value connection string.

use vstd::prelude::*;
use vstd::string::StringExecFns;

verus! {

/// How to reach the server: database, host, port and user, as text.
pub struct ConnectionOptions {
    pub dbname: String,
    pub host: String,
    pub port: String,
    pub user: String,
}

/// The keyword/value connection string for these options.
pub open spec fn connection_string_spec(o: ConnectionOptions) -> Seq<char> {
    "host="@ + o.host@ + " port="@ + o.port@ + " user="@ + o.user@ + " dbname="@ + o.dbname@
}

impl ConnectionOptions {
    /// Joins the options into the keyword/value form the server library
    /// takes, `host=.. port=.. user=.. dbname=..`.
    pub fn to_connection_string(&self) -> (r: String)
        ensures
            r@ == connection_string_spec(*self),
    {
        let mut r = String::new();
        r.append("host=");
        r.append(self.host.as_str());
        r.append(" port=");
        r.append(self.port.as_str());
        r.append(" user=");
        r.append(self.user.as_str());
        r.append(" dbname=");
        r.append(self.dbname.as_str());
        proof {
            assert(r@ =~= connection_string_spec(*self));
        }
        r
    }
}

} // verus!

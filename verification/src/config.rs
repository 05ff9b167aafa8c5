//! The service's configuration records. Loading them from the process
//! environment is the host's business; here live the records themselves and
//! the exact text they render to for the storage client and the RPC server.

use vstd::prelude::*;
use vstd::string::*;

verus! {

/// Where and as whom to reach the database.
pub struct DBConfig {
    pub user: String,
    pub password: String,
    pub name: String,
    pub host: String,
    pub port: String,
}

/// The connection string for a database configuration.
pub open spec fn db_conn_string(
    host: Seq<char>,
    user: Seq<char>,
    password: Seq<char>,
    name: Seq<char>,
) -> Seq<char> {
    "connect_timeout=2 host="@ + host + " user="@ + user + " password="@ + password + " dbname="@
        + name
}

impl DBConfig {
    /// The key-value connection string the storage client accepts.
    pub fn connection_string(&self) -> (r: String)
        ensures
            r@ == db_conn_string(self.host@, self.user@, self.password@, self.name@),
    {
        let mut s = String::from_str("connect_timeout=2 host=");
        s.append(self.host.as_str());
        s.append(" user=");
        s.append(self.user.as_str());
        s.append(" password=");
        s.append(self.password.as_str());
        s.append(" dbname=");
        s.append(self.name.as_str());
        proof {
            assert(s@ =~= db_conn_string(self.host@, self.user@, self.password@, self.name@));
        }
        s
    }
}

/// Where the RPC server listens.
pub struct GRPCServerConfig {
    pub host: String,
    pub port: String,
}

/// The listen address for a server configuration: every interface, on the
/// configured port.
pub open spec fn listen_addr_string(port: Seq<char>) -> Seq<char> {
    "0.0.0.0:"@ + port
}

impl GRPCServerConfig {
    /// The address the server binds: all interfaces, on the configured port.
    pub fn listen_addr(&self) -> (r: String)
        ensures
            r@ == listen_addr_string(self.port@),
    {
        let mut s = String::from_str("0.0.0.0:");
        s.append(self.port.as_str());
        proof {
            assert(s@ =~= listen_addr_string(self.port@));
        }
        s
    }
}

} // verus!

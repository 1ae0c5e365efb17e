//! Connection settings for one logical server connection: the server
//! address (host, with an optional explicit port) and the display name
//! sent in the handshake. Immutable once a session is built from them.

use vstd::prelude::*;
use vstd::string::*;

verus! {

/// The mathematical value of a [`ConnectionData`].
pub ghost struct ConnectionDataV {
    pub server: Seq<char>,
    pub name: Seq<char>,
}

/// The settings one session is built from.
#[derive(Clone, Debug)]
pub struct ConnectionData {
    server: String,
    name: String,
}

impl View for ConnectionData {
    type V = ConnectionDataV;

    closed spec fn view(&self) -> ConnectionDataV {
        ConnectionDataV { server: self.server@, name: self.name@ }
    }
}

impl Default for ConnectionData {
    /// The settings a fresh tab starts with: the local host on the
    /// default port, and the placeholder display name.
    fn default() -> (r: Self)
        ensures
            r@.server == "127.0.0.1:6078"@,
            r@.name == "nobody"@,
    {
        ConnectionData {
            server: String::from_str("127.0.0.1:6078"),
            name: String::from_str("nobody"),
        }
    }
}

impl ConnectionData {
    pub fn new(server: &str, name: &str) -> (r: Self)
        ensures
            r@.server == server@,
            r@.name == name@,
    {
        ConnectionData { server: server.to_owned(), name: name.to_owned() }
    }

    pub fn server(&self) -> (r: &String)
        ensures
            r@ == self@.server,
    {
        &self.server
    }

    pub fn name(&self) -> (r: &String)
        ensures
            r@ == self@.name,
    {
        &self.name
    }
}

/// The connections a client opens its tabs from, and which tab starts
/// selected: the saved list; after it, when a server was named on
/// startup, a connection to that server under the placeholder name,
/// selected; and the default connection when there is nothing else.
pub fn initial_connections(saved: Vec<ConnectionData>, server: Option<&String>) -> (r: (
    Vec<ConnectionData>,
    usize,
))
    ensures
        r.1 < r.0@.len(),
        match server {
            Some(s) => {
                &&& r.0@.len() == saved@.len() + 1
                &&& forall|i: int| 0 <= i < saved@.len() ==> r.0@[i] == saved@[i]
                &&& r.0@[saved@.len() as int]@.server == s@
                &&& r.0@[saved@.len() as int]@.name == "nobody"@
                &&& r.1 == saved@.len()
            },
            None => if saved@.len() == 0 {
                &&& r.0@.len() == 1
                &&& r.0@[0]@.server == "127.0.0.1:6078"@
                &&& r.0@[0]@.name == "nobody"@
                &&& r.1 == 0
            } else {
                &&& r.0@ == saved@
                &&& r.1 == 0
            },
        },
{
    let mut connections = saved;
    let mut start_tab: usize = 0;
    match server {
        Some(s) => {
            start_tab = connections.len();
            connections.push(ConnectionData::new(s.as_str(), "nobody"));
        },
        None => {
            if connections.len() == 0 {
                connections.push(ConnectionData::default());
            }
        },
    }
    (connections, start_tab)
}

} // verus!

//! Where and how the backend connects to its MySQL database.
use vstd::prelude::*;
use crate::decimal::{dec_nat, push_decimal};
use crate::parsed_url::{mysql_url_accepted, parse_url_opts};
pub use crate::parsed_url::{ConnectError, UrlOpts};

verus! {

/// How the MySQL server is reached: a TCP port on the local host, or a
/// Unix socket.
pub enum Connection {
    Port(u16),
    Socket(String),
}

/// The settings with which the backend (re)connects to its database.
pub struct ConnectionSettings {
    pub connection: Connection,
    pub user: String,
    pub pass: String,
    pub dbname: String,
    pub is_baseline: bool,
}

/// `mysql://<user>:<pass>@127.0.0.1:<port>/<db>`.
pub open spec fn mysql_url_text(user: Seq<char>, pass: Seq<char>, port: nat, db: Seq<char>) -> Seq<char> {
    "mysql://"@ + user + ":"@ + pass + "@127.0.0.1:"@ + dec_nat(port) + "/"@ + db
}

/// `127.0.0.1:<port>`.
pub open spec fn local_host_text(port: nat) -> Seq<char> {
    "127.0.0.1:"@ + dec_nat(port)
}

/// The URL of a database served on a local TCP port.
pub fn mysql_url(user: &str, pass: &str, port: u16, db: &str) -> (url: String)
    ensures
        url@ == mysql_url_text(user@, pass@, port as nat, db@),
{
    let mut url = String::new();
    url.append("mysql://");
    url.append(user);
    url.append(":");
    url.append(pass);
    url.append("@127.0.0.1:");
    push_decimal(&mut url, port as u128);
    url.append("/");
    url.append(db);
    assert(url@ =~= mysql_url_text(user@, pass@, port as nat, db@));
    url
}

/// The address of a database served on a local TCP port.
pub fn local_host(port: u16) -> (host: String)
    ensures
        host@ == local_host_text(port as nat),
{
    let mut host = String::new();
    host.append("127.0.0.1:");
    push_decimal(&mut host, port as u128);
    host
}

/// What the driver is given to open a connection: a URL, or a socket with
/// the credentials and the database name.
pub enum ConnectTarget {
    Url(String),
    Socket { socket: String, user: String, pass: String, db_name: String },
}

/// The target named by a connection and its credentials.
pub open spec fn target_of(
    connection: Connection,
    user: Seq<char>,
    pass: Seq<char>,
    db: Seq<char>,
    target: ConnectTarget,
) -> bool {
    match connection {
        Connection::Port(port) => target matches ConnectTarget::Url(url) && url@ == mysql_url_text(
            user,
            pass,
            port as nat,
            db,
        ),
        Connection::Socket(sock) => target matches ConnectTarget::Socket {
            socket,
            user: u,
            pass: p,
            db_name,
        } && socket@ == sock@ && u@ == user && p@ == pass && db_name@ == db,
    }
}

/// The target to connect to: the URL of the local port, or the socket.
pub fn connect_target(connection: &Connection, user: &str, pass: &str, db_name: &str) -> (t:
    ConnectTarget)
    ensures
        target_of(*connection, user@, pass@, db_name@, t),
{
    match connection {
        Connection::Port(port) => ConnectTarget::Url(mysql_url(user, pass, *port, db_name)),
        Connection::Socket(socket) => ConnectTarget::Socket {
            socket: socket.clone(),
            user: user.to_string(),
            pass: pass.to_string(),
            db_name: db_name.to_string(),
        },
    }
}

impl ConnectionSettings {
    /// The target that these settings connect to.
    pub fn target(&self) -> (t: ConnectTarget)
        ensures
            target_of(self.connection, self.user@, self.pass@, self.dbname@, t),
    {
        connect_target(&self.connection, self.user.as_str(), self.pass.as_str(), self.dbname.as_str())
    }
}

/// The driver options for a connection URL, marked with that URL.
pub fn url_opts(url: &str) -> (r: Result<UrlOpts, ConnectError>)
    ensures
        r is Ok <==> mysql_url_accepted(url@),
        r is Ok ==> r->Ok_0.url() == url@,
{
    parse_url_opts(url)
}

} // verus!

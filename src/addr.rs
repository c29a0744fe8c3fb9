//! Addresses: the endpoints the server listens on, and the server a client
//! dials, each chosen by the scheme of a URL-like string.
use crate::error::MetrsError;
use vstd::prelude::*;
use vstd::string::{StrSliceExecFns, StringExecFns};

verus! {

/// Whether `s` begins with `prefix`.
pub open spec fn starts_with(s: Seq<char>, prefix: Seq<char>) -> bool {
    prefix.len() <= s.len() && s.subrange(0, prefix.len() as int) == prefix
}

/// What follows `prefix` in `s`.
pub open spec fn after(s: Seq<char>, prefix: Seq<char>) -> Seq<char> {
    s.subrange(prefix.len() as int, s.len() as int)
}

/// Whether `s` begins with `prefix`.
pub fn has_prefix(s: &str, prefix: &str) -> (r: bool)
    ensures
        r == starts_with(s@, prefix@),
{
    let n = prefix.unicode_len();
    if n > s.unicode_len() {
        return false;
    }
    let mut i: usize = 0;
    while i < n
        invariant
            n == prefix@.len(),
            n <= s@.len(),
            i <= n,
            forall|j: int| 0 <= j < i ==> s@[j] == prefix@[j],
        decreases n - i,
    {
        if s.get_char(i) != prefix.get_char(i) {
            proof {
                assert(s@.subrange(0, n as int)[i as int] != prefix@[i as int]);
            }
            return false;
        }
        i = i + 1;
    }
    proof {
        assert(s@.subrange(0, n as int) =~= prefix@);
    }
    true
}

/// The text of `s` after its first `k` characters.
fn skip_chars(s: &str, k: usize) -> (r: String)
    requires
        k <= s@.len(),
    ensures
        r@ == s@.subrange(k as int, s@.len() as int),
{
    let n = s.unicode_len();
    String::from_str(s.substring_char(k, n))
}

/// An endpoint that the server listens on.
#[derive(Debug, PartialEq, Eq)]
pub enum ListenAddr {
    /// A Unix domain socket at a filesystem path.
    Unix(String),
    /// A TCP socket at `host:port`.
    Tcp(String),
}

/// The scheme of a Unix-socket endpoint.
pub open spec fn unix_scheme() -> Seq<char> {
    "unix://"@
}

/// The scheme of a TCP endpoint.
pub open spec fn tcp_scheme() -> Seq<char> {
    "tcp://"@
}

/// The endpoint that `host` names, if its scheme is one the server listens on.
pub open spec fn listen_addr_of(host: Seq<char>) -> Option<(bool, Seq<char>)> {
    if starts_with(host, unix_scheme()) {
        Some((true, after(host, unix_scheme())))
    } else if starts_with(host, tcp_scheme()) {
        Some((false, after(host, tcp_scheme())))
    } else {
        None
    }
}

/// Whether `a` is the endpoint described by `d`: its kind (Unix or not) and its address.
pub open spec fn describes(a: ListenAddr, d: (bool, Seq<char>)) -> bool {
    match a {
        ListenAddr::Unix(path) => d.0 && path@ == d.1,
        ListenAddr::Tcp(addr) => !d.0 && addr@ == d.1,
    }
}

/// Whether `a` is the endpoint that `host` names.
pub open spec fn names(host: Seq<char>, a: ListenAddr) -> bool {
    match listen_addr_of(host) {
        Some(d) => describes(a, d),
        None => false,
    }
}

/// The error message for a host whose scheme is neither `unix://` nor `tcp://`.
pub open spec fn bad_scheme_message(host: Seq<char>) -> Seq<char> {
    "Invalid host scheme must be [tcp,unix] got: "@ + host
}

/// The error message for an empty list of hosts.
pub open spec fn no_host_message() -> Seq<char> {
    "No host to listen on"@
}

/// Reads one listen endpoint: `unix://<path>` or `tcp://<host:port>`.
pub fn parse_listen_addr(host: &str) -> (r: Result<ListenAddr, MetrsError>)
    ensures
        match (r, listen_addr_of(host@)) {
            (Ok(a), Some(d)) => describes(a, d),
            (Err(MetrsError::Error(m)), None) => m@ == bad_scheme_message(host@),
            _ => false,
        },
{
    proof {
        reveal_strlit("unix://");
        reveal_strlit("tcp://");
    }
    if has_prefix(host, "unix://") {
        Ok(ListenAddr::Unix(skip_chars(host, 7)))
    } else if has_prefix(host, "tcp://") {
        Ok(ListenAddr::Tcp(skip_chars(host, 6)))
    } else {
        let m = String::from_str("Invalid host scheme must be [tcp,unix] got: ").concat(host);
        Err(MetrsError::Error(m))
    }
}

/// Reads every listen endpoint of `hosts`, in order. The list must not be
/// empty, and every host must have a scheme the server listens on; otherwise
/// the error names the first host at fault.
pub fn parse_listen_hosts(hosts: &Vec<String>) -> (r: Result<Vec<ListenAddr>, MetrsError>)
    ensures
        hosts@.len() == 0 ==> (r matches Err(MetrsError::Error(m)) && m@ == no_host_message()),
        hosts@.len() > 0 ==> match r {
            Ok(addrs) => addrs@.len() == hosts@.len() && forall|i: int|
                0 <= i < hosts@.len() ==> names(#[trigger] hosts@[i]@, addrs@[i]),
            Err(MetrsError::Error(m)) => exists|i: int|
                0 <= i < hosts@.len() && listen_addr_of(#[trigger] hosts@[i]@) is None && m@
                    == bad_scheme_message(hosts@[i]@) && forall|j: int|
                    0 <= j < i ==> listen_addr_of(#[trigger] hosts@[j]@) is Some,
            Err(MetrsError::Usage(_)) => false,
        },
{
    if hosts.len() == 0 {
        return Err(MetrsError::Error(String::from_str("No host to listen on")));
    }
    let mut addrs: Vec<ListenAddr> = Vec::new();
    let n = hosts.len();
    let mut i: usize = 0;
    while i < n
        invariant
            n == hosts@.len(),
            i <= n,
            addrs@.len() == i,
            forall|j: int| 0 <= j < i ==> names(#[trigger] hosts@[j]@, addrs@[j]),
        decreases n - i,
    {
        match parse_listen_addr(hosts[i].as_str()) {
            Ok(a) => addrs.push(a),
            Err(e) => {
                return Err(e);
            },
        }
        i = i + 1;
    }
    Ok(addrs)
}

/// How a client reaches the server.
#[derive(Debug, Clone, PartialEq, Eq)]
pub enum Transport {
    /// Over the network, to the host that the URL names.
    Network,
    /// Over a Unix domain socket at this filesystem path.
    UnixSocket(String),
}

/// Why a client could not be set up for a URL.
#[derive(Debug, PartialEq, Eq)]
pub enum ClientError {
    /// The URL's scheme is none of `http://`, `https://` and `unix://`.
    InvalidScheme(String),
}

/// The server a client talks to: the base of every request URL, and the
/// transport that carries the requests.
#[derive(Debug, Clone)]
pub struct Endpoint {
    pub url: String,
    pub transport: Transport,
}

/// The request target that stands for the server behind a Unix socket.
pub open spec fn local_base_url() -> Seq<char> {
    "http://localhost"@
}

/// Whether `url` is dialed over the network.
pub open spec fn is_network_url(url: Seq<char>) -> bool {
    starts_with(url, "http://"@) || starts_with(url, "https://"@)
}

impl Endpoint {
    /// Chooses the transport by the scheme of `url`. An `http://` or `https://`
    /// URL is dialed over the network and is the base of the requests. A
    /// `unix://<path>` URL dials the socket at `<path>`, and the requests target
    /// `http://localhost`. Any other scheme is refused.
    pub fn parse(url: &str) -> (r: Result<Endpoint, ClientError>)
        ensures
            is_network_url(url@) ==> (r matches Ok(e) && e.url@ == url@ && e.transport
                == Transport::Network),
            !is_network_url(url@) && starts_with(url@, unix_scheme()) ==> (r matches Ok(e)
                && e.url@ == local_base_url() && (e.transport matches Transport::UnixSocket(path)
                && path@ == after(url@, unix_scheme()))),
            !is_network_url(url@) && !starts_with(url@, unix_scheme()) ==> (r matches Err(
                ClientError::InvalidScheme(m),
            ) && m@ == "Invalid url valid scheme are [http,https,unix] got: "@ + url@),
    {
        proof {
            reveal_strlit("unix://");
        }
        if has_prefix(url, "http://") || has_prefix(url, "https://") {
            Ok(Endpoint { url: String::from_str(url), transport: Transport::Network })
        } else if has_prefix(url, "unix://") {
            Ok(
                Endpoint {
                    url: String::from_str("http://localhost"),
                    transport: Transport::UnixSocket(skip_chars(url, 7)),
                },
            )
        } else {
            let m = String::from_str("Invalid url valid scheme are [http,https,unix] got: ").concat(
                url,
            );
            Err(ClientError::InvalidScheme(m))
        }
    }

    /// The full URL of `path` on this server.
    pub fn gen_url(&self, path: &str) -> (r: String)
        ensures
            r@ == self.url@ + path@,
    {
        String::from_str(self.url.as_str()).concat(path)
    }
}

/// A failed reply of the server: its status and the body that explains it.
#[derive(Debug)]
pub struct ApiError {
    pub status: u16,
    pub msg: String,
}

/// Whether `status` reports success (2xx).
pub open spec fn is_success(status: u16) -> bool {
    200 <= status < 300
}

/// Checks the status of a reply before its body is streamed: a non-2xx reply
/// becomes an error that carries the status and the drained body.
pub fn check_reply(status: u16, body: String) -> (r: Result<(), ApiError>)
    ensures
        is_success(status) <==> r is Ok,
        r matches Err(e) ==> e.status == status && e.msg@ == body@,
{
    if 200 <= status && status < 300 {
        Ok(())
    } else {
        Err(ApiError { status, msg: body })
    }
}

} // verus!

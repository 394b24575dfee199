//! The endpoint forwarder: one backend address turned into a request rewriter.

use crate::config::BackendConfig;
use crate::error::ConfigError;
use vstd::prelude::*;

verus! {

/// `http::Uri`, carried through without looking inside.
#[verifier::external_type_specification]
#[verifier::external_body]
pub struct ExUri(http::Uri);

/// `http::uri::InvalidUri`, carried through without looking inside.
#[verifier::external_type_specification]
#[verifier::external_body]
pub struct ExInvalidUri(http::uri::InvalidUri);

/// Whether the `http` crate accepts `text` as a URI.
pub uninterp spec fn uri_accepts(text: Seq<char>) -> bool;

/// Calls `<http::Uri as FromStr>::from_str`. Trusted: the parser is a
/// function of the text alone, so whether it succeeds is `uri_accepts` of
/// that text; nothing is claimed about which texts it accepts.
#[verifier::external_body]
fn parse_uri(text: &str) -> (parsed: Result<http::Uri, http::uri::InvalidUri>)
    ensures
        parsed.is_ok() == uri_accepts(text@),
{
    <http::Uri as std::str::FromStr>::from_str(text)
}

/// The character of a decimal digit.
pub open spec fn digit(d: nat) -> char
    recommends
        d < 10,
{
    if d == 0 {
        '0'
    } else if d == 1 {
        '1'
    } else if d == 2 {
        '2'
    } else if d == 3 {
        '3'
    } else if d == 4 {
        '4'
    } else if d == 5 {
        '5'
    } else if d == 6 {
        '6'
    } else if d == 7 {
        '7'
    } else if d == 8 {
        '8'
    } else {
        '9'
    }
}

/// The decimal numeral of `n`, without leading zeros.
pub open spec fn decimal(n: nat) -> Seq<char>
    decreases n,
{
    if n < 10 {
        seq![digit(n)]
    } else {
        decimal(n / 10).push(digit(n % 10))
    }
}

fn digit_text(d: u16) -> (text: &'static str)
    requires
        d < 10,
    ensures
        text@ == seq![digit(d as nat)],
{
    let text = match d {
        0 => "0",
        1 => "1",
        2 => "2",
        3 => "3",
        4 => "4",
        5 => "5",
        6 => "6",
        7 => "7",
        8 => "8",
        _ => "9",
    };
    proof {
        reveal_strlit("0");
        reveal_strlit("1");
        reveal_strlit("2");
        reveal_strlit("3");
        reveal_strlit("4");
        reveal_strlit("5");
        reveal_strlit("6");
        reveal_strlit("7");
        reveal_strlit("8");
        reveal_strlit("9");
        assert(text@ =~= seq![digit(d as nat)]);
    }
    text
}

/// Appends the decimal numeral of `n` to `text`.
pub fn push_decimal(text: &mut String, n: u16)
    ensures
        final(text)@ == old(text)@ + decimal(n as nat),
    decreases n,
{
    if n >= 10 {
        push_decimal(text, n / 10);
    }
    text.append(digit_text(n % 10));
    proof {
        assert(final(text)@ =~= old(text)@ + decimal(n as nat));
    }
}

/// The scheme every backend is reached over: `http`.
pub open spec fn scheme_of() -> Seq<char> {
    seq!['h', 't', 't', 'p']
}

/// The authority of a backend: `host:port`.
pub open spec fn authority_of(host: Seq<char>, port: u16) -> Seq<char> {
    host.push(':') + decimal(port as nat)
}

/// The outbound address of a backend: `http://host:port`.
pub open spec fn address_of(host: Seq<char>, port: u16) -> Seq<char> {
    scheme_of() + seq![':', '/', '/'] + authority_of(host, port)
}

/// Whether `c` ends the authority of a URI: what follows it is read as
/// path, query or fragment.
pub open spec fn ends_authority(c: char) -> bool {
    c == '/' || c == '?' || c == '#'
}

/// Whether a host stays in one piece inside an address: no character of it
/// ends the authority, so that `host:port` is the authority of
/// `http://host:port` and not a part of it.
pub open spec fn host_is_whole(host: Seq<char>) -> bool {
    forall|i: int| 0 <= i < host.len() ==> !ends_authority(#[trigger] host[i])
}

/// What is wrong with a backend definition, given whether its address is an
/// acceptable URI; `None` when a forwarder can be built for it.
pub open spec fn backend_fault(host: Seq<char>, port: u16, address_ok: bool) -> Option<
    ConfigError,
> {
    if host.len() == 0 {
        Some(ConfigError::EmptyHost)
    } else if port == 0 {
        Some(ConfigError::InvalidPort)
    } else if !host_is_whole(host) || !address_ok {
        Some(ConfigError::InvalidAddress)
    } else {
        None
    }
}

/// Says whether a host stays in one piece inside an address.
pub fn check_host(host: &str) -> (whole: bool)
    ensures
        whole == host_is_whole(host@),
{
    let len = host.unicode_len();
    let mut i: usize = 0;
    while i < len
        invariant
            i <= len,
            len == host@.len(),
            forall|j: int| 0 <= j < i ==> !ends_authority(#[trigger] host@[j]),
        decreases len - i,
    {
        let c = host.get_char(i);
        if c == '/' || c == '?' || c == '#' {
            return false;
        }
        i += 1;
    }
    true
}

/// Whether the address of a backend definition is an acceptable URI.
pub open spec fn address_accepted(config: BackendConfig) -> bool {
    uri_accepts(address_of(config.host@, config.port))
}

/// What is wrong with a backend definition, if anything.
pub open spec fn config_fault(config: BackendConfig) -> Option<ConfigError> {
    backend_fault(config.host@, config.port, address_accepted(config))
}

/// Builds `host:port`.
pub fn authority_text(host: &str, port: u16) -> (text: String)
    ensures
        text@ == authority_of(host@, port),
{
    let mut text = host.to_owned();
    text.append(":");
    proof {
        reveal_strlit(":");
        assert(text@ =~= host@.push(':'));
    }
    push_decimal(&mut text, port);
    text
}

/// Builds `http://host:port`.
pub fn address_text(host: &str, port: u16) -> (text: String)
    ensures
        text@ == address_of(host@, port),
{
    let mut text = "http://".to_owned();
    let authority = authority_text(host, port);
    text.append(authority.as_str());
    proof {
        reveal_strlit("http://");
        assert(text@ =~= address_of(host@, port));
    }
    text
}

/// The wire protocol spoken to a backend.
#[derive(Debug, Clone, Copy, PartialEq, Eq, Structural)]
pub enum Transport {
    /// HTTP/1.1 with keep-alive.
    Http1,
    /// HTTP/2 over cleartext TCP.
    H2c,
}

/// One header line of a request.
#[derive(Debug, Clone, PartialEq, Eq)]
pub struct Header {
    pub name: String,
    pub value: Vec<u8>,
}

/// A request as the forwarder sees it. The body is carried through as is.
#[derive(Debug)]
pub struct Request<B> {
    pub method: String,
    pub scheme: Option<String>,
    pub authority: Option<String>,
    pub path: String,
    pub query: Option<String>,
    pub headers: Vec<Header>,
    pub body: B,
}

/// What a forwarder is, as plain values.
pub struct Target {
    pub host: Seq<char>,
    pub port: u16,
    pub transport: Transport,
}

/// The transport a backend definition selects.
pub open spec fn transport_of(enable_h2c: bool) -> Transport {
    if enable_h2c {
        Transport::H2c
    } else {
        Transport::Http1
    }
}

/// The target a backend definition describes.
pub open spec fn target_of(config: BackendConfig) -> Target {
    Target { host: config.host@, port: config.port, transport: transport_of(config.enable_h2c) }
}

/// One backend, ready to have requests pointed at it.
#[derive(Debug)]
pub struct Forward {
    host: String,
    port: u16,
    transport: Transport,
    authority: String,
}

impl View for Forward {
    type V = Target;

    closed spec fn view(&self) -> Target {
        Target { host: self.host@, port: self.port, transport: self.transport }
    }
}

impl Forward {
    #[verifier::type_invariant]
    spec fn well_formed(self) -> bool {
        &&& self.host@.len() > 0
        &&& self.port > 0
        &&& self.authority@ == authority_of(self.host@, self.port)
    }

    /// Builds the forwarder for `config`, given whether `http://host:port`
    /// was accepted as a URI. Faults are reported in a fixed order: an empty
    /// host, then port 0, then an address that is none: a host that holds
    /// `/`, `?` or `#`, or an address that was not accepted.
    pub fn from_checked(config: &BackendConfig, address_ok: bool) -> (built: Result<
        Forward,
        ConfigError,
    >)
        ensures
            match built {
                Ok(forward) => backend_fault(config.host@, config.port, address_ok) is None
                    && forward@ == target_of(*config),
                Err(fault) => backend_fault(config.host@, config.port, address_ok) == Some(fault),
            },
    {
        if config.host.as_str().is_empty() {
            return Err(ConfigError::EmptyHost);
        }
        if config.port == 0 {
            return Err(ConfigError::InvalidPort);
        }
        if !check_host(config.host.as_str()) || !address_ok {
            return Err(ConfigError::InvalidAddress);
        }
        let transport = if config.enable_h2c {
            Transport::H2c
        } else {
            Transport::Http1
        };
        Ok(
            Forward {
                host: config.host.clone(),
                port: config.port,
                transport,
                authority: authority_text(config.host.as_str(), config.port),
            },
        )
    }

    /// Asks the URI parser whether it accepts `http://host:port` for
    /// `config`.
    pub fn check_address(config: &BackendConfig) -> (address_ok: bool)
        ensures
            address_ok == address_accepted(*config),
    {
        let address = address_text(config.host.as_str(), config.port);
        match parse_uri(address.as_str()) {
            Ok(_) => true,
            Err(_) => false,
        }
    }

    /// Builds the forwarder for `config`. It fails when the host is empty,
    /// when the port is 0, and when `http://host:port` is not a URI with
    /// `host:port` for its authority.
    pub fn new(config: &BackendConfig) -> (built: Result<Forward, ConfigError>)
        ensures
            match built {
                Ok(forward) => config_fault(*config) is None && forward@ == target_of(*config),
                Err(fault) => config_fault(*config) == Some(fault),
            },
    {
        let address_ok = Forward::check_address(config);
        Forward::from_checked(config, address_ok)
    }

    /// A forwarder is always ready: back-pressure is left to the connection
    /// underneath.
    pub fn poll_ready(&self) -> (ready: bool)
        ensures
            ready,
    {
        true
    }

    /// The backend's host.
    pub fn host(&self) -> (host: &str)
        ensures
            host@ == self@.host,
    {
        self.host.as_str()
    }

    /// The backend's port.
    pub fn port(&self) -> (port: u16)
        ensures
            port == self@.port,
    {
        self.port
    }

    /// The authority requests are pointed at: `host:port`.
    pub fn authority(&self) -> (authority: &str)
        ensures
            authority@ == authority_of(self@.host, self@.port),
    {
        proof {
            use_type_invariant(self);
        }
        self.authority.as_str()
    }

    /// The backend's address: `http://host:port`.
    pub fn address(&self) -> (address: String)
        ensures
            address@ == address_of(self@.host, self@.port),
    {
        address_text(self.host.as_str(), self.port)
    }

    /// The wire protocol spoken to the backend.
    pub fn transport(&self) -> (transport: Transport)
        ensures
            transport == self@.transport,
    {
        self.transport
    }

    /// Whether `out` is `request` pointed at this backend: scheme and
    /// authority are this backend's, and method, path, query, headers and
    /// body are those of `request`.
    pub open spec fn points<B>(&self, request: Request<B>, out: Request<B>) -> bool {
        &&& out.scheme matches Some(scheme) && scheme@ == scheme_of()
        &&& out.authority matches Some(authority) && authority@ == authority_of(
            self@.host,
            self@.port,
        )
        &&& out.method == request.method
        &&& out.path == request.path
        &&& out.query == request.query
        &&& out.headers == request.headers
        &&& out.body == request.body
    }

    /// Forwards `request`: points it at this backend and hands it to
    /// `send`, once; what `send` answers, response or failure, is the
    /// answer.
    pub fn call<B, R, E, F: FnOnce(Request<B>) -> Result<R, E>>(
        &self,
        request: Request<B>,
        send: F,
    ) -> (handed: Result<R, E>)
        requires
            forall|out: Request<B>|
                self.points(request, out) ==> #[trigger] call_requires(send, (out,)),
        ensures
            exists|out: Request<B>|
                self.points(request, out) && #[trigger] call_ensures(send, (out,), handed),
    {
        let out = self.rewrite(request);
        send(out)
    }

    /// Points `request` at this backend: scheme and authority are replaced,
    /// everything else is handed on untouched.
    pub fn rewrite<B>(&self, request: Request<B>) -> (out: Request<B>)
        ensures
            self.points(request, out),
    {
        proof {
            use_type_invariant(self);
            reveal_strlit("http");
        }
        let scheme = "http".to_owned();
        assert(scheme@ =~= scheme_of());
        Request {
            method: request.method,
            scheme: Some(scheme),
            authority: Some(self.authority.clone()),
            path: request.path,
            query: request.query,
            headers: request.headers,
            body: request.body,
        }
    }
}

} // verus!

//! Where a session goes: the endpoint, the address it is routed to, and the
//! steps that turn a raw stream into a message channel.

use vstd::prelude::*;
use vstd::string::*;
use crate::correlate::same_text;
use crate::error::SessionError;

verus! {

/// What the `url` crate reads in a text: the scheme, the host where there
/// is one, and the port where the URL gives one that is not its scheme's
/// own. `None` where the text is no URL.
pub uninterp spec fn url_parsed(text: Seq<char>) -> Option<
    (Seq<char>, Option<Seq<char>>, Option<u16>),
>;

/// The port that a scheme implies, for the schemes that have one.
pub open spec fn known_port(scheme: Seq<char>) -> Option<u16> {
    if scheme == "http"@ || scheme == "ws"@ {
        Some(80)
    } else if scheme == "https"@ || scheme == "wss"@ {
        Some(443)
    } else if scheme == "ftp"@ {
        Some(21)
    } else {
        None
    }
}

/// The port of an endpoint: the one its URL gives, else the one its scheme
/// implies.
pub open spec fn port_or_known(scheme: Seq<char>, port: Option<u16>) -> Option<u16> {
    match port {
        Some(p) => Some(p),
        None => known_port(scheme),
    }
}

/// The port of the endpoint that a URL text names.
pub open spec fn endpoint_port(text: Seq<char>) -> Option<u16> {
    match url_parsed(text) {
        Some(parts) => port_or_known(parts.0, parts.2),
        None => None,
    }
}

/// The view of an optional text.
pub open spec fn text_view(t: Option<String>) -> Option<Seq<char>> {
    match t {
        Some(s) => Some(s@),
        None => None,
    }
}

/// `Url::parse`, and of the parsed URL `scheme`, `host_str`, `port` and
/// `port_or_known_default`, handed back as plain values. `None` where
/// `Url::parse` refuses the text. The first three depend on the text
/// alone; the last is the port where there is one, else the port that the
/// crate knows for the scheme: 80 for `http` and `ws`, 443 for `https` and
/// `wss`, 21 for `ftp`, none for any other.
#[verifier::external_body]
pub(crate) fn split_url(text: &str) -> (r: Option<
    (String, Option<String>, Option<u16>, Option<u16>),
>)
    ensures
        r is Some <==> url_parsed(text@) is Some,
        r matches Some(p) ==> url_parsed(text@) == Some((p.0@, text_view(p.1), p.2)) && p.3
            == port_or_known(p.0@, p.2),
{
    match url::Url::parse(text) {
        Ok(u) => Some(
            (
                u.scheme().to_string(),
                u.host_str().map(|h| h.to_string()),
                u.port(),
                u.port_or_known_default(),
            ),
        ),
        Err(_) => None,
    }
}

/// An IPv4 address, by its four octets.
#[derive(Debug, Clone, Copy, PartialEq, Eq, Structural)]
pub struct Ipv4 {
    pub a: u8,
    pub b: u8,
    pub c: u8,
    pub d: u8,
}

/// An endpoint: who the peer is (scheme, host, port), and where to reach it
/// where name resolution is to be bypassed.
#[derive(Debug)]
pub struct Endpoint {
    /// The URL as it was given.
    pub text: String,
    pub scheme: String,
    /// The host name: the peer's identity in the TLS handshake and in the
    /// `Host` header, whatever address the stream goes to.
    pub host: Option<String>,
    /// The port given in the URL, else the one known for the scheme.
    pub port: Option<u16>,
    /// The address to use in place of name resolution.
    pub pin: Option<Ipv4>,
}

/// Where the raw stream goes.
#[derive(Debug)]
pub enum Route {
    /// To this address, with no name resolution.
    Pinned { ip: Ipv4, port: u16 },
    /// To whatever the host name resolves to.
    Lookup { host: String, port: u16 },
}

/// The port used with name resolution where the URL gives none and the
/// scheme has none.
pub const FALLBACK_PORT: u16 = 443;

impl Endpoint {
    /// Reads an endpoint from its URL; its port is the one the URL gives,
    /// else the one its scheme implies. Fails with `AddressError` exactly
    /// where the text is no URL.
    pub fn parse(text: &str, pin: Option<Ipv4>) -> (r: Result<Endpoint, SessionError>)
        ensures
            r is Ok <==> url_parsed(text@) is Some,
            r matches Ok(e) ==> ({
                &&& e.text@ == text@
                &&& e.pin == pin
                &&& e.port == endpoint_port(text@)
                &&& url_parsed(text@) matches Some(parts) && e.scheme@ == parts.0 && text_view(
                    e.host,
                ) == parts.1
            }),
            r matches Err(e) ==> e is AddressError,
    {
        match split_url(text) {
            Some(parts) => Ok(
                Endpoint {
                    text: String::from_str(text),
                    scheme: parts.0,
                    host: parts.1,
                    port: parts.3,
                    pin,
                },
            ),
            None => Err(SessionError::AddressError),
        }
    }

    /// The address plan. With a pinned address the route is that address
    /// and the endpoint's port, never a name lookup; it fails where no port
    /// is given or known. Without one the route is a lookup of the host
    /// name, with the fallback port where none is known; it fails where
    /// the URL has no host.
    pub fn route(&self) -> (r: Result<Route, SessionError>)
        ensures
            self.pin is Some ==> !(r matches Ok(Route::Lookup { .. })),
            self.pin is None ==> !(r matches Ok(Route::Pinned { .. })),
            r is Ok <==> (if self.pin is Some {
                self.port is Some
            } else {
                self.host is Some
            }),
            r matches Ok(Route::Pinned { ip, port }) ==> Some(ip) == self.pin && Some(port)
                == self.port,
            r matches Ok(Route::Lookup { host, port }) ==> Some(host@) == text_view(self.host)
                && port == (match self.port {
                Some(p) => p,
                None => FALLBACK_PORT,
            }),
            r matches Err(e) ==> e is AddressError,
    {
        match self.pin {
            Some(ip) => match self.port {
                Some(port) => Ok(Route::Pinned { ip, port }),
                None => Err(SessionError::AddressError),
            },
            None => match &self.host {
                Some(h) => {
                    let port = match self.port {
                        Some(p) => p,
                        None => FALLBACK_PORT,
                    };
                    Ok(Route::Lookup { host: h.clone(), port })
                },
                None => Err(SessionError::AddressError),
            },
        }
    }

    /// Whether the scheme asks for an encrypted stream.
    pub open spec fn wants_tls(&self) -> bool {
        self.scheme@ == "wss"@ || self.scheme@ == "https"@
    }

    /// Whether the scheme asks for an encrypted stream.
    pub fn needs_tls(&self) -> (r: bool)
        ensures
            r == self.wants_tls(),
    {
        same_text(self.scheme.as_str(), "wss") || same_text(self.scheme.as_str(), "https")
    }
}

/// The route to the endpoint that a URL text names. Fails with
/// `AddressError` where the text is no URL, where an address is pinned but
/// no port is given or known, and where none is pinned and the URL has no
/// host.
pub fn resolve(text: &str, pin: Option<Ipv4>) -> (r: Result<Route, SessionError>)
    ensures
        pin is Some ==> !(r matches Ok(Route::Lookup { .. })),
        pin is None ==> !(r matches Ok(Route::Pinned { .. })),
        r is Ok <==> (url_parsed(text@) matches Some(parts) && (if pin is Some {
            endpoint_port(text@) is Some
        } else {
            parts.1 is Some
        })),
        r matches Ok(Route::Pinned { ip, port }) ==> Some(ip) == pin
            && Some(port) == endpoint_port(text@),
        r matches Ok(Route::Lookup { host, port }) ==> Some(host@) == url_parsed(text@).unwrap().1
            && port == (match endpoint_port(text@) {
            Some(p) => p,
            None => FALLBACK_PORT,
        }),
        r matches Err(e) ==> e is AddressError,
{
    match Endpoint::parse(text, pin) {
        Ok(endpoint) => endpoint.route(),
        Err(e) => Err(e),
    }
}

/// The schemes of the web and of WebSockets imply their ports, so an
/// endpoint of one of them has a port whether or not its URL gives one.
pub proof fn lemma_scheme_ports()
    ensures
        known_port("ws"@) == Some(80u16),
        known_port("http"@) == Some(80u16),
        known_port("wss"@) == Some(443u16),
        known_port("https"@) == Some(443u16),
        known_port("ftp"@) == Some(21u16),
        forall|s: Seq<char>, p: Option<u16>|
            known_port(s) is Some ==> (#[trigger] port_or_known(s, p)) is Some,
{
    reveal_strlit("ws");
    reveal_strlit("http");
    reveal_strlit("wss");
    reveal_strlit("https");
    reveal_strlit("ftp");
    assert("ws"@.len() == 2);
    assert("wss"@.len() == 3);
    assert("ftp"@.len() == 3);
    assert("http"@.len() == 4);
    assert("https"@.len() == 5);
    assert("wss"@[0] == 'w');
    assert("ftp"@[0] == 'f');
}

/// All that the transport needs to know before it opens the stream.
#[derive(Debug)]
pub struct TransportPlan {
    pub route: Route,
    /// Whether a TLS handshake follows the connect.
    pub secure: bool,
    /// The name presented in the TLS handshake: the endpoint's host.
    pub server_name: String,
    /// The value of the `Host` header of the upgrade request: the
    /// endpoint's host.
    pub host_header: String,
    /// Whether the peer's certificate chain is validated.
    pub verify_certificates: bool,
}

/// Plans the transport for an endpoint. The peer is named by the
/// endpoint's host in the handshake and in the upgrade request, whatever
/// the route. Fails with `AddressError` where there is no route or no host.
pub fn plan_transport(endpoint: &Endpoint, verify_certificates: bool) -> (r: Result<
    TransportPlan,
    SessionError,
>)
    ensures
        r is Ok <==> endpoint.host is Some && (endpoint.pin is Some ==> endpoint.port is Some),
        r matches Ok(p) ==> ({
            &&& Some(p.server_name@) == text_view(endpoint.host)
            &&& Some(p.host_header@) == text_view(endpoint.host)
            &&& p.secure == endpoint.wants_tls()
            &&& p.verify_certificates == verify_certificates
            &&& endpoint.pin is Some ==> (p.route matches Route::Pinned { ip, port } && Some(ip)
                == endpoint.pin && Some(port) == endpoint.port)
            &&& endpoint.pin is None ==> (p.route matches Route::Lookup { host, port } && Some(
                host@,
            ) == text_view(endpoint.host) && port == (match endpoint.port {
                Some(q) => q,
                None => FALLBACK_PORT,
            }))
        }),
        r matches Err(e) ==> e is AddressError,
{
    let name = match &endpoint.host {
        Some(h) => h.clone(),
        None => {
            return Err(SessionError::AddressError);
        },
    };
    match endpoint.route() {
        Ok(route) => Ok(
            TransportPlan {
                route,
                secure: endpoint.needs_tls(),
                server_name: name.clone(),
                host_header: name,
                verify_certificates,
            },
        ),
        Err(e) => Err(e),
    }
}

/// How far the transport has come.
#[derive(Debug, Clone, Copy, PartialEq, Eq, Structural)]
pub enum Stage {
    /// The raw stream is to be opened.
    Connect,
    /// The TLS handshake is to be made.
    Handshake,
    /// The protocol upgrade is to be made.
    Upgrade,
    /// The message channel is ready.
    Ready,
}

/// The stage that follows a step, or the failure that ends the attempt.
pub open spec fn stage_after(stage: Stage, secure: bool, ok: bool) -> Result<Stage, SessionError> {
    match stage {
        Stage::Connect => if !ok {
            Err(SessionError::ConnectError)
        } else if secure {
            Ok(Stage::Handshake)
        } else {
            Ok(Stage::Upgrade)
        },
        Stage::Handshake => if ok {
            Ok(Stage::Upgrade)
        } else {
            Err(SessionError::TlsError)
        },
        Stage::Upgrade => if ok {
            Ok(Stage::Ready)
        } else {
            Err(SessionError::UpgradeError)
        },
        Stage::Ready => Ok(Stage::Ready),
    }
}

/// Moves the transport on after a step succeeded or failed. A failure at
/// any step ends the attempt with that step's error; nothing is retried.
pub fn next_stage(stage: Stage, secure: bool, ok: bool) -> (r: Result<Stage, SessionError>)
    ensures
        r == stage_after(stage, secure, ok),
{
    match stage {
        Stage::Connect => if !ok {
            Err(SessionError::ConnectError)
        } else if secure {
            Ok(Stage::Handshake)
        } else {
            Ok(Stage::Upgrade)
        },
        Stage::Handshake => if ok {
            Ok(Stage::Upgrade)
        } else {
            Err(SessionError::TlsError)
        },
        Stage::Upgrade => if ok {
            Ok(Stage::Ready)
        } else {
            Err(SessionError::UpgradeError)
        },
        Stage::Ready => Ok(Stage::Ready),
    }
}

/// A plain stream reaches the ready channel in two successful steps, an
/// encrypted one in three, and the handshake is made only on an encrypted
/// one.
pub proof fn lemma_stages(secure: bool)
    ensures
        stage_after(Stage::Connect, secure, true) == (if secure {
            Ok::<Stage, SessionError>(Stage::Handshake)
        } else {
            Ok::<Stage, SessionError>(Stage::Upgrade)
        }),
        stage_after(Stage::Handshake, secure, true) == Ok::<Stage, SessionError>(Stage::Upgrade),
        stage_after(Stage::Upgrade, secure, true) == Ok::<Stage, SessionError>(Stage::Ready),
        forall|s: Stage| s != Stage::Ready ==> (#[trigger] stage_after(s, secure, false)) is Err,
{
}

} // verus!

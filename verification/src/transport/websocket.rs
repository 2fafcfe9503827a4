//! The WebSocket transport: paths, handshake addresses and frames.
use crate::config::{TlsConfig, TransportConfig};
use crate::helper;
use crate::helper::AddrError;
use crate::text;
use vstd::prelude::*;

verus! {

/// The path with a slash at its front.
pub open spec fn normalized_path(path: Seq<char>) -> Seq<char> {
    if path.len() > 0 && path[0] == '/' {
        path
    } else {
        seq!['/'] + path
    }
}

/// Puts a slash at the front of a path that has none.
pub fn normalize_ws_path(path: &str) -> (r: String)
    ensures
        r@ == normalized_path(path@),
{
    let chars = text::chars_of(path);
    let mut out = String::new();
    if chars.len() == 0 || chars[0] != '/' {
        out.push('/');
    }
    out.push_str(path);
    proof {
        assert(out@ =~= normalized_path(path@));
    }
    out
}

/// Normalizing a path a second time changes nothing, and a normalized path is never empty.
pub proof fn law_normalizing_is_idempotent(path: Seq<char>)
    ensures
        normalized_path(normalized_path(path)) == normalized_path(path),
        normalized_path(path).len() > 0,
        normalized_path(path)[0] == '/',
{
}

/// The host in the form that an address takes: IPv6 addresses stand in brackets.
pub open spec fn bracketed(host: Seq<char>) -> Seq<char> {
    if host.contains(':') && host[0] != '[' {
        seq!['['] + host + seq![']']
    } else {
        host
    }
}

/// The address that a client asks for: the configured host name, where there is one, goes
/// before the host of the address, and the port is left out where it is the default one.
pub open spec fn handshake_uri(
    tls: bool,
    addr_host: Seq<char>,
    port: nat,
    hostname: Option<Seq<char>>,
    path: Seq<char>,
) -> Seq<char> {
    let host = match hostname {
        Some(name) => if name.len() > 0 {
            name
        } else {
            addr_host
        },
        None => addr_host,
    };
    let authority = if port == (if tls {
        443nat
    } else {
        80nat
    }) {
        bracketed(host)
    } else {
        bracketed(host) + seq![':'] + text::decimal(port)
    };
    (if tls {
        "wss"@
    } else {
        "ws"@
    }) + "://"@ + authority + path
}

fn has_colon(chars: &[char]) -> (r: bool)
    ensures
        r == chars@.contains(':'),
{
    let mut i: usize = 0;
    while i < chars.len()
        invariant
            i <= chars@.len(),
            forall|k: int| 0 <= k < i ==> chars@[k] != ':',
        decreases chars@.len() - i,
    {
        if chars[i] == ':' {
            proof {
                assert(chars@[i as int] == ':');
            }
            return true;
        }
        i += 1;
    }
    false
}

/// The address that a client asks for in the WebSocket handshake.
pub fn websocket_handshake_uri(tls: bool, addr: &str, hostname: Option<&str>, path: &str) -> (r:
    Result<String, AddrError>)
    ensures
        match r {
            Ok(uri) => helper::address_parts(addr@) matches Ok((host, port)) && uri@
                == handshake_uri(
                tls,
                host,
                port,
                match hostname {
                    Some(name) => Some(name@),
                    None => None,
                },
                path@,
            ),
            Err(e) => helper::address_parts(addr@) == Err::<(Seq<char>, nat), AddrError>(e),
        },
{
    let (addr_host, port) = match helper::host_port_pair(addr) {
        Ok(parts) => parts,
        Err(e) => return Err(e),
    };
    let host = match hostname {
        Some(name) => {
            let chars = text::chars_of(name);
            if chars.len() > 0 {
                chars
            } else {
                text::chars_of(addr_host.as_str())
            }
        },
        None => text::chars_of(addr_host.as_str()),
    };
    let brackets = has_colon(host.as_slice()) && host[0] != '[';
    let host = text::text_of(host.as_slice());
    let mut out = String::new();
    out.push_str(
        if tls {
            "wss"
        } else {
            "ws"
        },
    );
    out.push_str("://");
    if brackets {
        out.push('[');
    }
    out.push_str(host.as_str());
    if brackets {
        out.push(']');
    }
    let default_port: u16 = if tls {
        443
    } else {
        80
    };
    if port != default_port {
        out.push(':');
        text::push_decimal(&mut out, port as u64);
    }
    out.push_str(path);
    proof {
        let name = match hostname {
            Some(name) => Some(name@),
            None => None,
        };
        assert(out@ =~= handshake_uri(tls, addr_host@, port as nat, name, path@));
    }
    Ok(out)
}

/// Where the host ends in the authority of a URI: at the last colon, unless it stands inside of
/// brackets.
pub open spec fn host_end(authority: Seq<char>) -> int {
    let colon = helper::last_colon(authority);
    if colon < 0 || authority.skip(colon).contains(']') {
        authority.len() as int
    } else {
        colon
    }
}

/// The port that an authority names, or the default one where it names none.
pub open spec fn port_named(authority: Seq<char>, default_port: nat) -> Option<nat> {
    let end = host_end(authority);
    if end == authority.len() {
        Some(default_port)
    } else {
        helper::port_of(authority.skip(end + 1))
    }
}

/// The authority of a URI is read back as the host and the port that it was made of, whether
/// the port is left out for the default one or not.
#[verifier::rlimit(60)]
proof fn lemma_authority_is_read_back(host: Seq<char>, port: u16, default_port: nat, named: bool)
    requires
        host.contains(':') ==> host.last() == ']',
        !named ==> port == default_port,
    ensures
        ({
            let authority = if named {
                host + seq![':'] + text::decimal(port as nat)
            } else {
                host
            };
            authority.take(host_end(authority)) == host && port_named(authority, default_port)
                == Some(port as nat)
        }),
{
    if named {
        let digits = text::decimal(port as nat);
        let authority = host + seq![':'] + digits;
        helper::lemma_port_digits(port);
        helper::lemma_last_colon_before(host, digits);
        let tail = authority.skip(host.len() as int);
        if tail.contains(']') {
            let i = choose|i: int| 0 <= i < tail.len() && tail[i] == ']';
            assert(i > 0);
            assert(digits[i - 1] == ']');
        }
        assert(authority.take(host.len() as int) =~= host);
        assert(authority.skip(host.len() as int + 1) =~= digits);
    } else {
        helper::lemma_last_colon(host);
        let colon = helper::last_colon(host);
        if colon >= 0 {
            let tail = host.skip(colon);
            assert(tail[tail.len() - 1] == ']');
        }
        assert(host.take(host.len() as int) =~= host);
    }
}

/// Reading the handshake address back gives what it was made from. Its scheme says whether TLS
/// is in use. Its host is the configured host name, or the host of the address where there is
/// none or an empty one, in brackets where it holds colons. The port that it names, or the
/// default one of the scheme where it names none, is the port of the address, whatever the
/// host name is. The path is at its end. A host that opens with a bracket but does not close
/// with one has no place in a URI.
#[verifier::rlimit(60)]
pub proof fn law_the_handshake_address_is_read_back(
    tls: bool,
    addr: &str,
    addr_host: Seq<char>,
    port: u16,
    hostname: Option<&str>,
    path: &str,
    r: Result<String, AddrError>,
)
    requires
        addr@ == addr_host + seq![':'] + text::decimal(port as nat),
        call_ensures(websocket_handshake_uri, (tls, addr, hostname, path), r),
        ({
            let host = match hostname {
                Some(name) if name@.len() > 0 => name@,
                _ => addr_host,
            };
            host.len() > 0 && host[0] == '[' ==> host.last() == ']'
        }),
    ensures
        ({
            let host = match hostname {
                Some(name) if name@.len() > 0 => name@,
                _ => addr_host,
            };
            let scheme = if tls {
                seq!['w', 's', 's', ':', '/', '/']
            } else {
                seq!['w', 's', ':', '/', '/']
            };
            let default_port: nat = if tls {
                443
            } else {
                80
            };
            &&& r matches Ok(uri)
            &&& uri@.len() >= scheme.len() + path@.len()
            &&& uri@.take(scheme.len() as int) == scheme
            &&& uri@.skip(uri@.len() - path@.len()) == path@
            &&& ({
                let authority = uri@.subrange(scheme.len() as int, uri@.len() - path@.len());
                let shown = authority.take(host_end(authority));
                &&& port_named(authority, default_port) == Some(port as nat)
                &&& shown == host || shown == seq!['['] + host + seq![']']
                &&& shown == host <==> !host.contains(':') || host[0] == '['
            })
        }),
{
    helper::lemma_port_digits(port);
    let digits = text::decimal(port as nat);
    helper::lemma_last_colon_before(addr_host, digits);
    assert(addr@.skip(addr_host.len() as int + 1) =~= digits);
    assert(addr@.take(addr_host.len() as int) =~= addr_host);
    assert(helper::address_parts(addr@) == Ok::<(Seq<char>, nat), AddrError>(
        (addr_host, port as nat),
    ));
    let name = match hostname {
        Some(name) => Some(name@),
        None => None,
    };
    let host = match hostname {
        Some(name) if name@.len() > 0 => name@,
        _ => addr_host,
    };
    lemma_handshake_uri_parts(tls, addr_host, port, name, host, path@);
    let shown = bracketed(host);
    if host.contains(':') {
        assert(host.len() > 0);
    }
    assert((seq!['['] + host + seq![']']).len() == host.len() + 2);
    let default_port: nat = if tls {
        443
    } else {
        80
    };
    lemma_authority_is_read_back(shown, port, default_port, port != default_port);
}

/// A handshake address is the scheme, the host with the port behind it unless it is the
/// default one, and the path.
#[verifier::rlimit(60)]
proof fn lemma_handshake_uri_parts(
    tls: bool,
    addr_host: Seq<char>,
    port: u16,
    name: Option<Seq<char>>,
    host: Seq<char>,
    path: Seq<char>,
)
    requires
        host == (match name {
            Some(n) => if n.len() > 0 {
                n
            } else {
                addr_host
            },
            None => addr_host,
        }),
    ensures
        ({
            let uri = handshake_uri(tls, addr_host, port as nat, name, path);
            let scheme = if tls {
                seq!['w', 's', 's', ':', '/', '/']
            } else {
                seq!['w', 's', ':', '/', '/']
            };
            let authority = if port != (if tls {
                443nat
            } else {
                80nat
            }) {
                bracketed(host) + seq![':'] + text::decimal(port as nat)
            } else {
                bracketed(host)
            };
            &&& uri.len() == scheme.len() + authority.len() + path.len()
            &&& uri.take(scheme.len() as int) == scheme
            &&& uri.skip(uri.len() - path.len()) == path
            &&& uri.subrange(scheme.len() as int, uri.len() - path.len()) == authority
        }),
{
    reveal_strlit("wss");
    reveal_strlit("ws");
    reveal_strlit("://");
    let uri = handshake_uri(tls, addr_host, port as nat, name, path);
    let scheme = if tls {
        seq!['w', 's', 's', ':', '/', '/']
    } else {
        seq!['w', 's', ':', '/', '/']
    };
    let authority = if port != (if tls {
        443nat
    } else {
        80nat
    }) {
        bracketed(host) + seq![':'] + text::decimal(port as nat)
    } else {
        bracketed(host)
    };
    assert("wss"@ + "://"@ =~= seq!['w', 's', 's', ':', '/', '/']);
    assert("ws"@ + "://"@ =~= seq!['w', 's', ':', '/', '/']);
    assert(uri == scheme + authority + path);
    assert(uri.take(scheme.len() as int) =~= scheme);
    assert(uri.skip(uri.len() - path.len()) =~= path);
    assert(uri.subrange(scheme.len() as int, uri.len() - path.len()) =~= authority);
}

/// The answer to a handshake for a path that the server does not serve.
pub open spec fn path_mismatch(got: Seq<char>, expected: Seq<char>) -> Seq<char> {
    "WebSocket path mismatch: got "@ + got + ", expected "@ + expected
}

/// Whether a handshake asks for the path that the server serves. If it does not, the text
/// says what is wrong, and the handshake is answered with the status "not found".
pub fn check_path(got: &str, expected: &str) -> (r: Result<(), String>)
    ensures
        match r {
            Ok(()) => got@ == expected@,
            Err(text) => got@ != expected@ && text@ == path_mismatch(got@, expected@),
        },
{
    if got.to_owned() == expected.to_owned() {
        return Ok(());
    }
    let mut out = String::new();
    out.push_str("WebSocket path mismatch: got ");
    out.push_str(got);
    out.push_str(", expected ");
    out.push_str(expected);
    proof {
        assert(out@ =~= path_mismatch(got@, expected@));
    }
    Err(out)
}

/// A WebSocket message.
pub enum Frame {
    Binary(Vec<u8>),
    Other,
}

/// The payload of a message. Only binary messages carry one; any other is an unexpected
/// frame.
pub fn frame_payload(frame: Frame) -> (r: Result<Vec<u8>, &'static str>)
    ensures
        match frame {
            Frame::Binary(data) => r == Ok::<Vec<u8>, &'static str>(data),
            Frame::Other => r matches Err(text) && text@ == "unexpected frame"@,
        },
{
    match frame {
        Frame::Binary(data) => Ok(data),
        Frame::Other => Err("unexpected frame"),
    }
}

/// What carries the WebSocket connection.
pub enum SubTransport<'a> {
    /// TLS with the settings.
    Secure(&'a TlsConfig),
    /// TLS with default settings.
    SecureByDefault,
    /// Plain TCP.
    Insecure,
}

/// The settings of a WebSocket transport.
pub struct WebsocketTransport<'a> {
    pub sub: SubTransport<'a>,
    pub tls: bool,
    pub path: String,
    pub hostname: Option<&'a String>,
}

impl<'a> WebsocketTransport<'a> {
    /// The settings that follow from the configuration. `None`: the websocket block is
    /// missing.
    pub fn new(config: &'a TransportConfig) -> (r: Option<Self>)
        ensures
            match config.websocket {
                None => r is None,
                Some(ws) => r matches Some(t) && t.tls == ws.tls && t.path@ == normalized_path(
                    ws.path@,
                ) && t.hostname == (match config.tls {
                    Some(tls) => match tls.hostname {
                        Some(name) => Some(&name),
                        None => None,
                    },
                    None => None,
                }) && t.sub == (if !ws.tls {
                    SubTransport::Insecure
                } else {
                    match config.tls {
                        Some(tls) => SubTransport::Secure(&tls),
                        None => SubTransport::SecureByDefault,
                    }
                }),
            },
    {
        let ws = match &config.websocket {
            Some(ws) => ws,
            None => return None,
        };
        let path = normalize_ws_path(ws.path.as_str());
        let hostname = match &config.tls {
            Some(tls) => match &tls.hostname {
                Some(name) => Some(name),
                None => None,
            },
            None => None,
        };
        let sub = if !ws.tls {
            SubTransport::Insecure
        } else {
            match &config.tls {
                Some(tls) => SubTransport::Secure(tls),
                None => SubTransport::SecureByDefault,
            }
        };
        Some(WebsocketTransport { sub, tls: ws.tls, path, hostname })
    }
}

/// A WebSocket transport runs over TLS exactly where its block says so, with the TLS settings
/// where there are any, asks for the configured host name, and serves its path with a slash at
/// the front. Without its block there is none.
pub proof fn law_a_websocket_runs_over_what_it_says<'a>(
    config: &'a TransportConfig,
    r: Option<WebsocketTransport<'a>>,
)
    requires
        call_ensures(WebsocketTransport::new, (config,), r),
    ensures
        r is Some <==> config.websocket is Some,
        r matches Some(t) ==> {
            let ws = config.websocket->0;
            &&& t.tls == ws.tls
            &&& t.sub is Insecure <==> !ws.tls
            &&& t.sub is Secure <==> ws.tls && config.tls is Some
            &&& t.path@.len() > 0 && t.path@[0] == '/'
            &&& t.path@ == ws.path@ || t.path@ == seq!['/'] + ws.path@
            &&& ws.path@.len() > 0 && ws.path@[0] == '/' ==> t.path@ == ws.path@
            &&& t.hostname is Some <==> (config.tls matches Some(tls) && tls.hostname is Some)
            &&& t.hostname matches Some(name) ==> name@ == config.tls->0.hostname->0@
        },
{
}

} // verus!

//! The transports: TLS over TCP, and WebSocket over either.
use vstd::prelude::*;

pub mod der;
pub mod pkcs12;
pub mod rustls;
pub mod websocket;

verus! {

} // verus!

//! Sizes, limits and defaults.
use vstd::prelude::*;

verus! {

/// Level of the zstd encoder where the configuration sets none.
pub const DEFAULT_ZSTD_LEVEL: i32 = 19;

/// Largest datagram that is forwarded.
pub const UDP_BUFFER_SIZE: usize = 2048;

/// Datagrams that wait for a socket or for the data channel.
pub const UDP_SENDQ_SIZE: usize = 1024;

/// Seconds without traffic after which the socket of a visitor is dropped.
pub const UDP_TIMEOUT: u64 = 60;

pub const DEFAULT_NODELAY: bool = true;

pub const DEFAULT_KEEPALIVE_SECS: u64 = 20;

pub const DEFAULT_KEEPALIVE_INTERVAL: u64 = 8;

} // verus!

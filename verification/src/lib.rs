//! The logic of a reverse proxy for services behind NATs: the wire protocol,
//! the configuration rules, the pools of data channels, compression with
//! dictionaries trained from traffic, and the observation endpoint.
//!
//! Everything here is computed from plain values. Sockets, timers, files and
//! tasks belong to the program that drives this library.
pub mod buffers;
pub mod client;
pub mod compression;
pub mod config;
pub mod constants;
pub mod helper;
pub mod protocol;
pub mod reuse;
pub mod server;
pub mod table;
pub mod text;
pub mod transport;
pub mod wire;

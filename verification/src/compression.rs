//! Compression of forwarded bytes: encoding off the async workers, and dictionaries.
pub mod encoder;
pub mod train;

//! The server: services, control channels, pools of data channels, trained dictionaries
//! and the observation endpoint.
pub mod control;
pub mod http;
pub mod metrics;
pub mod observe;
pub mod pool;
pub mod registry;
pub mod sampler;
pub mod state;

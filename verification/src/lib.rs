//! A configuration-driven reverse proxy core: per-endpoint forwarders, a
//! load-aware backend pool with power-of-two-choices selection, a windowed
//! rate limiter and the listener state machine that ties them together.
//!
//! Everything here is plain computation over plain values; sockets, timers
//! and tasks live with the caller, which performs the actions these types
//! decide on and reports back what happened.

pub mod config;
pub mod error;
pub mod layer;
pub mod log;
pub mod server;
pub mod signal_handle;

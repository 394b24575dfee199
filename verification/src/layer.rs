//! The request pipeline: forwarder, backend pool and rate limiter.

pub mod balance;
pub mod http_forward;
pub mod limiter;

//! Errors raised while a pipeline is being built or a listener started.

use vstd::prelude::*;

verus! {

/// Why a forwarder or a backend pool could not be built.
#[derive(Debug, Clone, Copy, PartialEq, Eq, Structural)]
pub enum ConfigError {
    /// A pool was asked for with no backend at all.
    NoBackends,
    /// A backend has an empty host.
    EmptyHost,
    /// A backend or a server has port 0.
    InvalidPort,
    /// `http://host:port` is not a well-formed URI for the backend.
    InvalidAddress,
}

/// Why a listener stopped before serving traffic.
#[derive(Debug, Clone, Copy, PartialEq, Eq, Structural)]
pub enum ServerError {
    /// The pipeline could not be built from the server's backends.
    Config(ConfigError),
    /// The listen port could not be bound.
    Bind { port: u16 },
}

} // verus!

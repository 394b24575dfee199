//! Virtual servers.

pub mod http_server;

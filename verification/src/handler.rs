//! Handlers of requests.

pub mod server;

//! A local gateway between an HTTP client and a remote mock service.
//!
//! The crate holds the gateway's rules: the time-bounded routing cache, the
//! decisions taken for each inbound request, the shape of the calls sent
//! upstream and of the replies relayed back. Sockets, timers and the process
//! itself belong to the program built around it.

pub mod cli;
pub mod config;
pub mod json;
pub mod ping;
pub mod server;
pub mod text;
pub mod utils;

//! Per-connection protocol state machines.
pub mod proxied_connection;
pub mod user_connection;

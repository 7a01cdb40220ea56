//! The packets this proxy reads and writes.
pub mod handshake;
pub mod serverlist_ping;
pub mod login_start;
pub mod login_success;
pub mod ping_pong;
pub mod set_compression;

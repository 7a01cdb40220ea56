//! Verified core of a Minecraft login/status proxy: the wire codec, the
//! packet types, and the per-connection protocol state machines.
pub mod errors;
pub mod codec;
pub mod packet;
pub mod packets;
pub mod random;
pub mod connection;

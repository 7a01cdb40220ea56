//! The first login packet a client sends: its user name.
use vstd::prelude::*;
use crate::codec::{parse_string, read_string};
use crate::errors::ProtocolError;
use crate::packet::Packet;

verus! {

/// Login start (id 0): the player's user name.
pub struct PacketLoginStart {
    pub username: Option<String>,
}

impl Packet for PacketLoginStart {
    open spec fn packet_id(&self) -> i32 {
        0
    }

    open spec fn body(&self) -> Seq<u8> {
        Seq::empty()
    }

    /// Encoding a login start is not supported.
    open spec fn writable(&self) -> bool {
        false
    }

    open spec fn readable(&self) -> bool {
        true
    }

    fn read(&mut self, input: &[u8]) -> (res: Result<usize, ProtocolError>)
        ensures
            match parse_string(input@) {
                Ok((name, n)) => {
                    &&& res == Ok::<usize, ProtocolError>(n as usize)
                    &&& final(self).username matches Some(u) && u@ == name
                },
                Err(e) => res == Err::<usize, ProtocolError>(e) && *final(self) == *old(self),
            },
    {
        match read_string(input) {
            Ok((username, n)) => {
                self.username = Some(username);
                Ok(n)
            },
            Err(e) => Err(e),
        }
    }

    fn write(&self, out: &mut Vec<u8>) {
    }

    fn get_id(&self) -> (id: i32) {
        0
    }
}

impl Default for PacketLoginStart {
    fn default() -> (packet: Self)
        ensures
            packet.username is None,
    {
        Self { username: None }
    }
}

} // verus!

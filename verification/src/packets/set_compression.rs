//! The packet that announces the compression threshold.
use vstd::prelude::*;
use crate::codec::{parse_varint, read_varint, varint_bytes, write_varint};
use crate::errors::ProtocolError;
use crate::packet::Packet;

verus! {

/// Set compression (id 3): the size from which packets are compressed.
#[derive(Debug)]
pub struct PacketSetCompression {
    pub threshhold: Option<i32>,
}

impl Packet for PacketSetCompression {
    open spec fn packet_id(&self) -> i32 {
        3
    }

    /// The threshold as a VarInt, or nothing when it is unset.
    open spec fn body(&self) -> Seq<u8> {
        match self.threshhold {
            Some(t) => varint_bytes(t),
            None => Seq::empty(),
        }
    }

    open spec fn writable(&self) -> bool {
        true
    }

    open spec fn readable(&self) -> bool {
        true
    }

    fn read(&mut self, input: &[u8]) -> (res: Result<usize, ProtocolError>)
        ensures
            match parse_varint(input@) {
                Ok((t, n)) => res == Ok::<usize, ProtocolError>(n as usize) && final(self).threshhold
                    == Some(t),
                Err(e) => res == Err::<usize, ProtocolError>(e) && *final(self) == *old(self),
            },
    {
        match read_varint(input) {
            Ok((t, n)) => {
                self.threshhold = Some(t);
                Ok(n)
            },
            Err(e) => Err(e),
        }
    }

    fn write(&self, out: &mut Vec<u8>) {
        if let Some(threshhold) = self.threshhold {
            write_varint(threshhold, out);
        } else {
            assert(old(out)@ + self.body() =~= out@);
        }
    }

    fn get_id(&self) -> (id: i32) {
        3
    }
}

impl Default for PacketSetCompression {
    fn default() -> (packet: Self)
        ensures
            packet.threshhold is None,
    {
        Self { threshhold: None }
    }
}

} // verus!

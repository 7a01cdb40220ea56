//! The ping a client sends after a status request, echoed back as the pong.
use vstd::prelude::*;
use crate::codec::{i64_bytes, parse_i64, read_i64, write_i64};
use crate::errors::ProtocolError;
use crate::packet::Packet;

verus! {

/// Ping / pong (id 1): a challenge number the server echoes.
#[derive(Debug)]
pub struct PacketPingPong {
    pub challenge: Option<i64>,
}

impl Packet for PacketPingPong {
    open spec fn packet_id(&self) -> i32 {
        1
    }

    /// The challenge's eight bytes, or nothing when it is unset.
    open spec fn body(&self) -> Seq<u8> {
        match self.challenge {
            Some(c) => i64_bytes(c),
            None => Seq::empty(),
        }
    }

    open spec fn writable(&self) -> bool {
        true
    }

    open spec fn readable(&self) -> bool {
        true
    }

    fn read(&mut self, input: &[u8]) -> (res: Result<usize, ProtocolError>)
        ensures
            match parse_i64(input@) {
                Ok((c, n)) => res == Ok::<usize, ProtocolError>(n as usize) && final(self).challenge
                    == Some(c),
                Err(e) => res == Err::<usize, ProtocolError>(e) && *final(self) == *old(self),
            },
    {
        match read_i64(input) {
            Ok((c, n)) => {
                self.challenge = Some(c);
                Ok(n)
            },
            Err(e) => Err(e),
        }
    }

    fn write(&self, out: &mut Vec<u8>) {
        if let Some(challenge) = self.challenge {
            write_i64(challenge, out);
        } else {
            assert(old(out)@ + self.body() =~= out@);
        }
    }

    fn get_id(&self) -> (id: i32) {
        1
    }
}

impl Default for PacketPingPong {
    fn default() -> (packet: Self)
        ensures
            packet.challenge is None,
    {
        Self { challenge: None }
    }
}

} // verus!

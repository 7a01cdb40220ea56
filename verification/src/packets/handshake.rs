//! The handshake a client opens every connection with.
use vstd::prelude::*;
use crate::codec::{
    lemma_string_roundtrip, lemma_u16_roundtrip, lemma_varint_roundtrip, parse_string, parse_u16,
    parse_varint, read_string, read_u16, read_varint, string_bytes, string_fits, u16_bytes,
    varint_bytes, write_string, write_u16, write_varint,
};
use crate::errors::ProtocolError;
use crate::packet::Packet;

verus! {

/// Handshake (id 0): protocol version, server address, port and the state
/// the client asks for next (1 status, 2 login).
#[derive(Debug)]
pub struct PacketHandshake {
    pub protocol_version: Option<i32>,
    pub server_address: Option<String>,
    pub port: Option<u16>,
    pub next_state: Option<i32>,
}

/// The handshake's wire body for the given fields.
pub open spec fn handshake_bytes(
    protocol_version: i32,
    server_address: Seq<char>,
    port: u16,
    next_state: i32,
) -> Seq<u8> {
    varint_bytes(protocol_version) + string_bytes(server_address) + u16_bytes(port)
        + varint_bytes(next_state)
}

/// The fields of a handshake decoded from the front of `s`, and the bytes taken.
pub open spec fn parse_handshake(s: Seq<u8>) -> Result<(i32, Seq<char>, u16, i32, nat), ProtocolError> {
    match parse_varint(s) {
        Err(e) => Err(e),
        Ok((version, n1)) => match parse_string(s.skip(n1 as int)) {
            Err(e) => Err(e),
            Ok((address, n2)) => match parse_u16(s.skip((n1 + n2) as int)) {
                Err(e) => Err(e),
                Ok((port, n3)) => match parse_varint(s.skip((n1 + n2 + n3) as int)) {
                    Err(e) => Err(e),
                    Ok((next, n4)) => Ok((version, address, port, next, n1 + n2 + n3 + n4)),
                },
            },
        },
    }
}

/// Decoding the body of a complete handshake, followed by anything, gives
/// back its four fields and the body's length.
pub proof fn lemma_handshake_roundtrip(
    protocol_version: i32,
    server_address: Seq<char>,
    port: u16,
    next_state: i32,
    rest: Seq<u8>,
)
    requires
        string_fits(server_address),
    ensures
        ({
            let body = handshake_bytes(protocol_version, server_address, port, next_state);
            parse_handshake(body + rest) == Ok::<(i32, Seq<char>, u16, i32, nat), ProtocolError>(
                (protocol_version, server_address, port, next_state, body.len()),
            )
        }),
{
    let a = varint_bytes(protocol_version);
    let b = string_bytes(server_address);
    let c = u16_bytes(port);
    let d = varint_bytes(next_state);
    let s = a + b + c + d + rest;
    assert(handshake_bytes(protocol_version, server_address, port, next_state) + rest =~= s);
    assert(s =~= a + (b + c + d + rest));
    lemma_varint_roundtrip(protocol_version, b + c + d + rest);
    assert(s.skip(a.len() as int) =~= b + (c + d + rest));
    lemma_string_roundtrip(server_address, c + d + rest);
    assert(s.skip((a.len() + b.len()) as int) =~= c + (d + rest));
    lemma_u16_roundtrip(port, d + rest);
    assert(s.skip((a.len() + b.len() + c.len()) as int) =~= d + rest);
    lemma_varint_roundtrip(next_state, rest);
}

/// A decoded handshake takes no more bytes than the input has.
pub proof fn lemma_parse_handshake_len(s: Seq<u8>)
    ensures
        parse_handshake(s) matches Ok((_, _, _, _, n)) ==> n <= s.len(),
{
    crate::codec::lemma_parse_varint_len(s);
    if let Ok((_, n1)) = parse_varint(s) {
        crate::codec::lemma_parse_string_len(s.skip(n1 as int));
        if let Ok((_, n2)) = parse_string(s.skip(n1 as int)) {
            crate::codec::lemma_parse_varint_len(s.skip((n1 + n2 + 2) as int));
        }
    }
}

impl PacketHandshake {
    /// Whether every field is set.
    pub open spec fn complete(&self) -> bool {
        &&& self.protocol_version is Some
        &&& self.server_address is Some
        &&& self.port is Some
        &&& self.next_state is Some
    }
}

impl Packet for PacketHandshake {
    open spec fn packet_id(&self) -> i32 {
        0
    }

    open spec fn body(&self) -> Seq<u8> {
        if self.complete() {
            handshake_bytes(
                self.protocol_version->0,
                self.server_address->0@,
                self.port->0,
                self.next_state->0,
            )
        } else {
            Seq::empty()
        }
    }

    open spec fn writable(&self) -> bool {
        self.complete()
    }

    open spec fn readable(&self) -> bool {
        true
    }

    fn read(&mut self, input: &[u8]) -> (res: Result<usize, ProtocolError>)
        ensures
            match parse_handshake(input@) {
                Ok((version, address, port, next, n)) => {
                    &&& res == Ok::<usize, ProtocolError>(n as usize)
                    &&& final(self).protocol_version == Some(version)
                    &&& final(self).server_address matches Some(a) && a@ == address
                    &&& final(self).port == Some(port)
                    &&& final(self).next_state == Some(next)
                },
                Err(e) => res == Err::<usize, ProtocolError>(e) && *final(self) == *old(self),
            },
    {
        let len = input.len();
        let (version, n1) = match read_varint(input) {
            Ok(p) => p,
            Err(e) => return Err(e),
        };
        proof {
            crate::codec::lemma_parse_varint_len(input@);
        }
        let rest1 = &input[n1..len];
        assert(rest1@ =~= input@.skip(n1 as int));
        let (address, n2) = match read_string(rest1) {
            Ok(p) => p,
            Err(e) => return Err(e),
        };
        proof {
            crate::codec::lemma_parse_string_len(rest1@);
        }
        let rest2 = &input[n1 + n2..len];
        assert(rest2@ =~= input@.skip(n1 + n2));
        let (port, n3) = match read_u16(rest2) {
            Ok(p) => p,
            Err(e) => return Err(e),
        };
        let rest3 = &input[n1 + n2 + n3..len];
        assert(rest3@ =~= input@.skip(n1 + n2 + n3));
        let (next, n4) = match read_varint(rest3) {
            Ok(p) => p,
            Err(e) => return Err(e),
        };
        proof {
            crate::codec::lemma_parse_varint_len(rest3@);
        }
        self.protocol_version = Some(version);
        self.server_address = Some(address);
        self.port = Some(port);
        self.next_state = Some(next);
        Ok(n1 + n2 + n3 + n4)
    }

    fn write(&self, out: &mut Vec<u8>) {
        let version = match self.protocol_version {
            Some(v) => v,
            None => return ,
        };
        let address = match &self.server_address {
            Some(a) => a,
            None => return ,
        };
        let port = match self.port {
            Some(p) => p,
            None => return ,
        };
        let next = match self.next_state {
            Some(n) => n,
            None => return ,
        };
        write_varint(version, out);
        write_string(address.as_str(), out);
        write_u16(port, out);
        write_varint(next, out);
        assert(out@ =~= old(out)@ + self.body());
    }

    fn get_id(&self) -> (id: i32) {
        0
    }
}

impl Default for PacketHandshake {
    fn default() -> (packet: Self)
        ensures
            packet.protocol_version is None,
            packet.server_address is None,
            packet.port is None,
            packet.next_state is None,
    {
        Self { protocol_version: None, server_address: None, port: None, next_state: None }
    }
}

} // verus!

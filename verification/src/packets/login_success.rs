//! The reply that completes a login: the player's UUID and name.
use vstd::prelude::*;
use crate::codec::{
    lemma_parse_string_len, lemma_string_roundtrip, lemma_u128_roundtrip, parse_string,
    parse_u128, read_string, read_u128, string_bytes, string_fits, u128_bytes, write_string,
    write_u128,
};
use crate::errors::ProtocolError;
use crate::packet::Packet;

verus! {

/// Login success (id 2): the player's UUID, as its 128-bit big-endian
/// value, and user name.
pub struct PacketLoginSuccess {
    pub uuid: Option<u128>,
    pub username: Option<String>,
}

/// The login success body for the given fields.
pub open spec fn login_success_bytes(uuid: u128, username: Seq<char>) -> Seq<u8> {
    u128_bytes(uuid) + string_bytes(username)
}

/// The fields of a login success decoded from the front of `s`, and the bytes taken.
pub open spec fn parse_login_success(s: Seq<u8>) -> Result<(u128, Seq<char>, nat), ProtocolError> {
    match parse_u128(s) {
        Err(e) => Err(e),
        Ok((uuid, n1)) => match parse_string(s.skip(n1 as int)) {
            Err(e) => Err(e),
            Ok((name, n2)) => Ok((uuid, name, n1 + n2)),
        },
    }
}

/// Decoding the body of a login success, followed by anything, gives back
/// its UUID and name and the body's length.
pub proof fn lemma_login_success_roundtrip(uuid: u128, username: Seq<char>, rest: Seq<u8>)
    requires
        string_fits(username),
    ensures
        parse_login_success(login_success_bytes(uuid, username) + rest) == Ok::<
            (u128, Seq<char>, nat),
            ProtocolError,
        >((uuid, username, login_success_bytes(uuid, username).len())),
{
    let a = u128_bytes(uuid);
    let b = string_bytes(username);
    let s = login_success_bytes(uuid, username) + rest;
    assert(s =~= a + (b + rest));
    lemma_u128_roundtrip(uuid, b + rest);
    assert(s.skip(a.len() as int) =~= b + rest);
    lemma_string_roundtrip(username, rest);
}

impl Packet for PacketLoginSuccess {
    open spec fn packet_id(&self) -> i32 {
        2
    }

    open spec fn body(&self) -> Seq<u8> {
        if self.uuid is Some && self.username is Some {
            login_success_bytes(self.uuid->0, self.username->0@)
        } else {
            Seq::empty()
        }
    }

    open spec fn writable(&self) -> bool {
        &&& self.uuid is Some
        &&& self.username is Some
    }

    open spec fn readable(&self) -> bool {
        true
    }

    fn read(&mut self, input: &[u8]) -> (res: Result<usize, ProtocolError>)
        ensures
            match parse_login_success(input@) {
                Ok((uuid, name, n)) => {
                    &&& res == Ok::<usize, ProtocolError>(n as usize)
                    &&& final(self).uuid == Some(uuid)
                    &&& final(self).username matches Some(u) && u@ == name
                },
                Err(e) => res == Err::<usize, ProtocolError>(e) && *final(self) == *old(self),
            },
    {
        let len = input.len();
        let (uuid, n1) = match read_u128(input) {
            Ok(p) => p,
            Err(e) => return Err(e),
        };
        let rest = &input[n1..len];
        assert(rest@ =~= input@.skip(n1 as int));
        let (username, n2) = match read_string(rest) {
            Ok(p) => p,
            Err(e) => return Err(e),
        };
        proof {
            lemma_parse_string_len(rest@);
        }
        self.uuid = Some(uuid);
        self.username = Some(username);
        Ok(n1 + n2)
    }

    fn write(&self, out: &mut Vec<u8>) {
        let uuid = match self.uuid {
            Some(u) => u,
            None => return ,
        };
        let username = match &self.username {
            Some(u) => u,
            None => return ,
        };
        write_u128(uuid, out);
        write_string(username.as_str(), out);
        assert(out@ =~= old(out)@ + self.body());
    }

    fn get_id(&self) -> (id: i32) {
        2
    }
}

impl Default for PacketLoginSuccess {
    fn default() -> (packet: Self)
        ensures
            packet.uuid is None,
            packet.username is None,
    {
        Self { uuid: None, username: None }
    }
}

} // verus!

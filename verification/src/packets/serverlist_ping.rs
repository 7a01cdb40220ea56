//! The server list status reply.
use vstd::prelude::*;
use crate::codec::{lemma_string_roundtrip, parse_string, string_bytes, string_fits, write_string};
use crate::errors::ProtocolError;
use crate::packet::Packet;

verus! {

/// The status document this proxy reports in the server list.
pub const SERVER_STATUS_JSON: &'static str = "{ \"version\": { \"name\": \"1.16.3\", \"protocol\": 753 }, \"players\": { \"max\": 100, \"online\": 5, \"sample\": [ { \"name\": \"thinkofdeath\", \"id\": \"4566e69f-c907-48ee-8d71-d7ba5aa00d20\" } ] }, \"description\": { \"text\": \"UH IH UH AH AH TING TANG\" }}";

proof fn lemma_encode_utf8_len(chars: Seq<char>)
    ensures
        vstd::utf8::encode_utf8(chars).len() <= 4 * chars.len(),
    decreases chars.len(),
{
    if chars.len() > 0 {
        lemma_encode_utf8_len(chars.drop_first());
    }
}

/// The status document's UTF-8 length fits the string length field, with
/// room to spare.
pub proof fn lemma_status_fits()
    ensures
        string_fits(SERVER_STATUS_JSON@),
        vstd::utf8::encode_utf8(SERVER_STATUS_JSON@).len() < 4000,
{
    reveal_strlit("{ \"version\": { \"name\": \"1.16.3\", \"protocol\": 753 }, \"players\": { \"max\": 100, \"online\": 5, \"sample\": [ { \"name\": \"thinkofdeath\", \"id\": \"4566e69f-c907-48ee-8d71-d7ba5aa00d20\" } ] }, \"description\": { \"text\": \"UH IH UH AH AH TING TANG\" }}");
    lemma_encode_utf8_len(SERVER_STATUS_JSON@);
    assert(SERVER_STATUS_JSON@.len() < 1000);
}

/// The body of a status response decodes back to the status document.
pub proof fn lemma_status_roundtrip(rest: Seq<u8>)
    ensures
        parse_string(string_bytes(SERVER_STATUS_JSON@) + rest) == Ok::<(Seq<char>, nat), ProtocolError>(
            (SERVER_STATUS_JSON@, string_bytes(SERVER_STATUS_JSON@).len()),
        ),
{
    lemma_status_fits();
    lemma_string_roundtrip(SERVER_STATUS_JSON@, rest);
}

/// Status response (id 0): the server status document as a string.
pub struct PacketServerList {}

impl Packet for PacketServerList {
    open spec fn packet_id(&self) -> i32 {
        0
    }

    open spec fn body(&self) -> Seq<u8> {
        string_bytes(SERVER_STATUS_JSON@)
    }

    open spec fn writable(&self) -> bool {
        true
    }

    /// Status responses are only ever sent, never read.
    open spec fn readable(&self) -> bool {
        false
    }

    fn read(&mut self, input: &[u8]) -> (res: Result<usize, ProtocolError>) {
        Err(ProtocolError::UnexpectedEnd)
    }

    fn write(&self, out: &mut Vec<u8>) {
        write_string(SERVER_STATUS_JSON, out);
    }

    fn get_id(&self) -> (id: i32) {
        0
    }
}

} // verus!

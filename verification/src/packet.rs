//! The packet abstraction and the length-prefixed framing packets travel in.
use vstd::prelude::*;
use crate::codec::{parse_varint, varint_bytes, write_varint, lemma_varint_roundtrip};
use crate::errors::ProtocolError;

verus! {

/// A protocol packet: an id and a body that can be read from and written to
/// bytes.
pub trait Packet {
    /// The id this packet is framed with.
    spec fn packet_id(&self) -> i32;

    /// The bytes `write` produces for this value.
    spec fn body(&self) -> Seq<u8>;

    /// Whether `write` can encode this value.
    spec fn writable(&self) -> bool;

    /// Whether this packet kind can be read at all.
    spec fn readable(&self) -> bool;

    /// Fills this packet from the front of `input`, giving the number of
    /// bytes taken.
    fn read(&mut self, input: &[u8]) -> (res: Result<usize, ProtocolError>)
        requires
            old(self).readable(),
    ;

    /// Appends the body of this packet to `out`.
    fn write(&self, out: &mut Vec<u8>)
        requires
            self.writable(),
        ensures
            final(out)@ == old(out)@ + self.body(),
    ;

    /// The id this packet is framed with.
    fn get_id(&self) -> (id: i32)
        ensures
            id == self.packet_id(),
    ;
}

/// Something packets can be sent to.
pub trait PacketReceiver {
    /// Sends `packet`, framed, to this receiver.
    fn send_packet<P: Packet>(&mut self, packet: &P)
        requires
            packet.writable(),
    ;
}

/// What follows the length prefix of a frame: the id, then the body.
pub open spec fn payload_bytes<P: Packet>(packet: &P) -> Seq<u8> {
    varint_bytes(packet.packet_id()) + packet.body()
}

/// A frame on the wire: the payload's byte length as a VarInt, then the
/// payload. The length is taken as an `i32`, so a length beyond `i32::MAX`
/// keeps only its low 32 bits.
pub open spec fn frame_bytes(payload: Seq<u8>) -> Seq<u8> {
    varint_bytes(payload.len() as i32) + payload
}

/// The number of bytes of `packet`'s id and body together: the length that
/// prefixes its frame.
pub fn get_packet_size<T: Packet>(packet: &T) -> (size: usize)
    requires
        packet.writable(),
    ensures
        size == payload_bytes(packet).len(),
{
    let mut bytes: Vec<u8> = Vec::new();
    write_varint(packet.get_id(), &mut bytes);
    packet.write(&mut bytes);
    assert(bytes@ =~= payload_bytes(packet));
    bytes.len()
}

/// Frames are appended to a byte buffer.
impl PacketReceiver for Vec<u8> {
    fn send_packet<P: Packet>(&mut self, packet: &P)
        ensures
            final(self)@ == old(self)@ + frame_bytes(payload_bytes(packet)),
    {
        let size = get_packet_size(packet);
        write_varint(size as i32, self);
        let ghost mid = self@;
        write_varint(packet.get_id(), self);
        packet.write(self);
        assert(self@ =~= old(self)@ + frame_bytes(payload_bytes(packet)));
    }
}

/// Reading a frame back: its length prefix decodes to the payload length,
/// the id that follows decodes to the packet's id, and what remains is the
/// packet's body.
pub proof fn lemma_frame_roundtrip<P: Packet>(packet: &P, rest: Seq<u8>)
    requires
        payload_bytes(packet).len() <= i32::MAX,
    ensures
        ({
            let payload = payload_bytes(packet);
            let f = frame_bytes(payload) + rest;
            let k = varint_bytes(payload.len() as i32).len();
            let m = varint_bytes(packet.packet_id()).len();
            &&& parse_varint(f) == Ok::<(i32, nat), ProtocolError>((payload.len() as i32, k))
            &&& parse_varint(f.skip(k as int)) == Ok::<(i32, nat), ProtocolError>(
                (packet.packet_id(), m),
            )
            &&& f.skip(k as int).skip(m as int) == packet.body() + rest
        }),
{
    let payload = payload_bytes(packet);
    let f = frame_bytes(payload) + rest;
    let k = varint_bytes(payload.len() as i32).len();
    let m = varint_bytes(packet.packet_id()).len();
    assert(f =~= varint_bytes(payload.len() as i32) + (payload + rest));
    lemma_varint_roundtrip(payload.len() as i32, payload + rest);
    assert(f.skip(k as int) =~= varint_bytes(packet.packet_id()) + (packet.body() + rest));
    lemma_varint_roundtrip(packet.packet_id(), packet.body() + rest);
    assert(f.skip(k as int).skip(m as int) =~= packet.body() + rest);
}

/// Reading a whole frame: the length prefix must cover exactly the rest of
/// `f`; gives the packet id that starts the payload and the body after it.
pub open spec fn decode_frame(f: Seq<u8>) -> Option<(i32, Seq<u8>)> {
    match parse_varint(f) {
        Ok((len, k)) => if len >= 0 && f.len() == k + len {
            match parse_varint(f.skip(k as int)) {
                Ok((id, m)) => Some((id, f.skip((k + m) as int))),
                Err(_) => None,
            }
        } else {
            None
        },
        Err(_) => None,
    }
}

/// A frame for packet id `id` with body `body` reads back as that id and
/// that body, when its payload fits the `i32` length field.
pub proof fn lemma_decode_frame(id: i32, body: Seq<u8>)
    requires
        (varint_bytes(id) + body).len() <= i32::MAX,
    ensures
        decode_frame(frame_bytes(varint_bytes(id) + body)) == Some((id, body)),
{
    let payload = varint_bytes(id) + body;
    let f = frame_bytes(payload);
    let k = varint_bytes(payload.len() as i32).len();
    lemma_varint_roundtrip(payload.len() as i32, payload);
    assert(f.skip(k as int) =~= payload);
    lemma_varint_roundtrip(id, body);
    assert(payload =~= varint_bytes(id) + body);
    let m = varint_bytes(id).len();
    assert(f.skip((k + m) as int) =~= body);
}

} // verus!

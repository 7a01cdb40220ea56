//! The decisions of a client connection served directly: status, ping and
//! login, without a backend.
use vstd::prelude::*;
use crate::codec::parse_string;
use crate::connection::proxied_connection::{
    lemma_login_success_frame_decodes, lemma_pong_frame_decodes, lemma_status_frame_decodes,
    login_success_frame, pong_frame, status_frame,
};
use crate::codec::{i64_bytes, lemma_i64_roundtrip, lemma_string_roundtrip, string_bytes, string_fits};
use crate::packet::decode_frame;
use crate::packets::handshake::{handshake_bytes, lemma_handshake_roundtrip};
use crate::packets::login_success::parse_login_success;
use crate::packets::serverlist_ping::SERVER_STATUS_JSON;
use crate::errors::ProtocolError;
use crate::packet::{Packet, PacketReceiver};
use crate::packets::handshake::{parse_handshake, PacketHandshake};
use crate::packets::login_start::PacketLoginStart;
use crate::packets::login_success::PacketLoginSuccess;
use crate::packets::ping_pong::PacketPingPong;
use crate::packets::serverlist_ping::PacketServerList;
use crate::codec::parse_i64;
use crate::random::{is_random_uuid, new_random_uuid};

verus! {

/// Where the client is in the protocol.
#[allow(non_camel_case_types)]
#[derive(Debug, Clone, Copy, PartialEq, Eq, Structural)]
pub enum ConnectionState {
    HANDSHAKING,
    STATUS,
    PING,
    LOGIN,
    PLAY,
    FINISHED,
}

/// The protocol state of one client served directly.
pub struct UserConnection {
    pub state: ConnectionState,
    pub username: Option<String>,
}

/// How a packet `packet_id`, whose body starts `input`, moves `old` to
/// `new`, which frame, if any, it answers with and how many bytes of `input`
/// it takes; `uuid` is the UUID a login is given. Bytes not taken stay
/// unread; an unreadable login start is ignored and reported as taking none.
pub open spec fn user_step(
    old: UserConnection,
    new: UserConnection,
    packet_id: i32,
    input: Seq<u8>,
    uuid: u128,
    res: Result<(Option<Vec<u8>>, usize), ProtocolError>,
) -> bool {
    let quiet = new == old && (res matches Ok((None, n)) && n == 0);
    match old.state {
        ConnectionState::HANDSHAKING => if packet_id != 0 {
            quiet
        } else {
            match parse_handshake(input) {
                Err(e) => new == old && res == Err::<(Option<Vec<u8>>, usize), ProtocolError>(e),
                Ok((_, _, _, next, n)) => {
                    &&& res matches Ok((None, m)) && m == n
                    &&& new.username == old.username
                    &&& new.state == if next == 1 {
                        ConnectionState::STATUS
                    } else if next == 2 {
                        ConnectionState::LOGIN
                    } else {
                        old.state
                    }
                },
            }
        },
        ConnectionState::STATUS => {
            &&& res matches Ok((Some(f), m)) && f@ == status_frame() && m == 0
            &&& new == (UserConnection { state: ConnectionState::PING, ..old })
        },
        ConnectionState::PING => match parse_i64(input) {
            Err(e) => new == old && res == Err::<(Option<Vec<u8>>, usize), ProtocolError>(e),
            Ok((challenge, n)) => {
                &&& res matches Ok((Some(f), m)) && f@ == pong_frame(challenge) && m == n
                &&& new == (UserConnection { state: ConnectionState::FINISHED, ..old })
            },
        },
        ConnectionState::LOGIN => match parse_string(input) {
            Err(_) => quiet,
            Ok((name, n)) => {
                &&& res matches Ok((Some(f), m)) && f@ == login_success_frame(uuid, name) && m == n
                &&& new.username matches Some(u) && u@ == name
                &&& new.state == ConnectionState::PLAY
            },
        },
        ConnectionState::PLAY | ConnectionState::FINISHED => quiet,
    }
}

impl UserConnection {
    /// A connection that waits for the client's handshake.
    pub fn new() -> (conn: Self)
        ensures
            conn.state == ConnectionState::HANDSHAKING,
            conn.username is None,
    {
        Self { username: None, state: ConnectionState::HANDSHAKING }
    }

    /// Handles a client packet whose body starts `input`, `uuid` being the
    /// UUID a login is given; gives the frame to answer with, if any, and the
    /// bytes of `input` taken.
    pub fn handle_packet(&mut self, packet_id: i32, input: &[u8], uuid: u128) -> (res: Result<
        (Option<Vec<u8>>, usize),
        ProtocolError,
    >)
        ensures
            user_step(*old(self), *final(self), packet_id, input@, uuid, res),
    {
        let input_len = input.len();
        assert(input@.len() == input_len);
        proof {
            crate::packets::handshake::lemma_parse_handshake_len(input@);
            crate::codec::lemma_parse_string_len(input@);
        }
        match self.state {
            ConnectionState::HANDSHAKING => {
                if packet_id != 0 {
                    return Ok((None, 0));
                }
                let mut handshake = PacketHandshake::default();
                let n = match handshake.read(input) {
                    Ok(n) => n,
                    Err(e) => return Err(e),
                };
                if let Some(next_state) = handshake.next_state {
                    if next_state == 1 {
                        self.state = ConnectionState::STATUS;
                    } else if next_state == 2 {
                        self.state = ConnectionState::LOGIN;
                    }
                }
                Ok((None, n))
            },
            ConnectionState::STATUS => {
                let status = PacketServerList {};
                let mut frame: Vec<u8> = Vec::new();
                frame.send_packet(&status);
                self.state = ConnectionState::PING;
                Ok((Some(frame), 0))
            },
            ConnectionState::PING => {
                let mut packet = PacketPingPong::default();
                let n = match packet.read(input) {
                    Ok(n) => n,
                    Err(e) => return Err(e),
                };
                let mut frame: Vec<u8> = Vec::new();
                frame.send_packet(&packet);
                assert(frame@ =~= pong_frame(packet.challenge->0));
                self.state = ConnectionState::FINISHED;
                Ok((Some(frame), n))
            },
            ConnectionState::LOGIN => {
                let mut packet = PacketLoginStart::default();
                let n = match packet.read(input) {
                    Ok(n) => n,
                    Err(_) => 0,
                };
                if let Some(username) = packet.username {
                    self.username = Some(username.clone());
                    let reply = PacketLoginSuccess { uuid: Some(uuid), username: Some(username) };
                    let mut frame: Vec<u8> = Vec::new();
                    frame.send_packet(&reply);
                    self.state = ConnectionState::PLAY;
                    Ok((Some(frame), n))
                } else {
                    Ok((None, 0))
                }
            },
            ConnectionState::PLAY => Ok((None, 0)),
            ConnectionState::FINISHED => Ok((None, 0)),
        }
    }

    /// Handles a client packet whose body starts `input`; a login is given a
    /// fresh random UUID.
    pub fn receive_packet(&mut self, packet_id: i32, input: &[u8]) -> (res: Result<
        (Option<Vec<u8>>, usize),
        ProtocolError,
    >)
        ensures
            exists|uuid: u128|
                is_random_uuid(uuid) && user_step(
                    *old(self),
                    *final(self),
                    packet_id,
                    input@,
                    uuid,
                    res,
                ),
    {
        let uuid = new_random_uuid();
        self.handle_packet(packet_id, input, uuid)
    }
}

/// How far along the protocol a state is.
pub open spec fn progress(state: ConnectionState) -> nat {
    match state {
        ConnectionState::HANDSHAKING => 0,
        ConnectionState::STATUS => 1,
        ConnectionState::LOGIN => 1,
        ConnectionState::PING => 2,
        ConnectionState::PLAY => 3,
        ConnectionState::FINISHED => 3,
    }
}

/// A packet never moves a connection back, a refused packet changes
/// nothing, and once playing or finished nothing changes at all.
pub proof fn lemma_user_step_forward(
    old: UserConnection,
    new: UserConnection,
    packet_id: i32,
    input: Seq<u8>,
    uuid: u128,
    res: Result<(Option<Vec<u8>>, usize), ProtocolError>,
)
    requires
        user_step(old, new, packet_id, input, uuid, res),
    ensures
        progress(new.state) >= progress(old.state),
        res is Err ==> new == old,
        old.state == ConnectionState::PLAY || old.state == ConnectionState::FINISHED ==> new
            == old && (res matches Ok((None, n)) && n == 0),
{
}

/// A handshake takes exactly its own bytes, leaving whatever follows it
/// unread, sends nothing, and enters status (1) or login (2) as asked; any
/// other request changes no state.
pub proof fn lemma_user_handshake(
    old: UserConnection,
    new: UserConnection,
    version: i32,
    address: Seq<char>,
    port: u16,
    next: i32,
    rest: Seq<u8>,
    uuid: u128,
    res: Result<(Option<Vec<u8>>, usize), ProtocolError>,
)
    requires
        old.state == ConnectionState::HANDSHAKING,
        string_fits(address),
        user_step(old, new, 0, handshake_bytes(version, address, port, next) + rest, uuid, res),
    ensures
        res matches Ok((None, m)) && m == handshake_bytes(version, address, port, next).len(),
        next == 1 ==> new.state == ConnectionState::STATUS,
        next == 2 ==> new.state == ConnectionState::LOGIN,
        next != 1 && next != 2 ==> new.state == ConnectionState::HANDSHAKING,
        new.username == old.username,
{
    lemma_handshake_roundtrip(version, address, port, next, rest);
}

/// In the status state any packet takes no bytes and is answered by a frame
/// that reads back as id 0 and the status document; the ping comes next.
pub proof fn lemma_user_status(
    old: UserConnection,
    new: UserConnection,
    packet_id: i32,
    input: Seq<u8>,
    uuid: u128,
    res: Result<(Option<Vec<u8>>, usize), ProtocolError>,
)
    requires
        old.state == ConnectionState::STATUS,
        user_step(old, new, packet_id, input, uuid, res),
    ensures
        res matches Ok((Some(f), m)) && m == 0 && (decode_frame(f@) matches Some((id, b)) && id
            == 0 && parse_string(b) == Ok::<(Seq<char>, nat), ProtocolError>(
            (SERVER_STATUS_JSON@, b.len()),
        )),
        new.state == ConnectionState::PING,
        new.username == old.username,
{
    lemma_status_frame_decodes();
}

/// In the ping state a body that starts with the eight bytes of `challenge`
/// takes exactly those bytes and is answered by a frame that reads back as
/// id 1 and the same challenge; the connection is then finished.
pub proof fn lemma_user_ping(
    old: UserConnection,
    new: UserConnection,
    packet_id: i32,
    challenge: i64,
    rest: Seq<u8>,
    uuid: u128,
    res: Result<(Option<Vec<u8>>, usize), ProtocolError>,
)
    requires
        old.state == ConnectionState::PING,
        user_step(old, new, packet_id, i64_bytes(challenge) + rest, uuid, res),
    ensures
        res matches Ok((Some(f), m)) && m == 8 && (decode_frame(f@) matches Some((id, b)) && id
            == 1 && parse_i64(b) == Ok::<(i64, nat), ProtocolError>((challenge, 8))),
        new.state == ConnectionState::FINISHED,
{
    lemma_i64_roundtrip(challenge, rest);
    lemma_pong_frame_decodes(challenge);
}

/// In the login state a body that starts with the string `name` takes
/// exactly that string's bytes, records `name`, and is answered by a frame
/// that reads back as id 2 with the given UUID and that same name; the
/// player is then in play.
pub proof fn lemma_user_login(
    old: UserConnection,
    new: UserConnection,
    packet_id: i32,
    name: Seq<char>,
    rest: Seq<u8>,
    uuid: u128,
    res: Result<(Option<Vec<u8>>, usize), ProtocolError>,
)
    requires
        old.state == ConnectionState::LOGIN,
        vstd::utf8::encode_utf8(name).len() <= 0x7fff_0000,
        user_step(old, new, packet_id, string_bytes(name) + rest, uuid, res),
    ensures
        res matches Ok((Some(f), m)) && m == string_bytes(name).len() && (decode_frame(f@) matches Some(
            (id, b),
        ) && id == 2 && parse_login_success(b) == Ok::<(u128, Seq<char>, nat), ProtocolError>(
            (uuid, name, b.len()),
        )),
        new.username matches Some(u) && u@ == name,
        new.state == ConnectionState::PLAY,
{
    lemma_string_roundtrip(name, rest);
    lemma_login_success_frame_decodes(uuid, name);
}

/// Before the handshake, a packet with an id other than 0 takes none of its
/// body, sends nothing and changes nothing.
pub proof fn lemma_user_unexpected_id(
    old: UserConnection,
    new: UserConnection,
    packet_id: i32,
    input: Seq<u8>,
    uuid: u128,
    res: Result<(Option<Vec<u8>>, usize), ProtocolError>,
)
    requires
        old.state == ConnectionState::HANDSHAKING,
        packet_id != 0,
        user_step(old, new, packet_id, input, uuid, res),
    ensures
        new == old,
        res matches Ok((None, n)) && n == 0,
{
}

} // verus!

//! The decisions of a proxied client connection: which packet is expected
//! next, what is answered, and when the backend server takes over.
use vstd::prelude::*;
use crate::codec::{
    i64_bytes, lemma_i64_roundtrip, lemma_string_roundtrip, lemma_varint_roundtrip, parse_i64,
    parse_string, string_bytes, string_fits, varint_bytes,
};
use crate::errors::ProtocolError;
use crate::packet::{decode_frame, frame_bytes, lemma_decode_frame, Packet, PacketReceiver};
use crate::packets::handshake::{
    handshake_bytes, lemma_handshake_roundtrip, parse_handshake, PacketHandshake,
};
use crate::packets::login_start::PacketLoginStart;
use crate::packets::login_success::{
    lemma_login_success_roundtrip, login_success_bytes, parse_login_success, PacketLoginSuccess,
};
use crate::packets::ping_pong::PacketPingPong;
use crate::packets::serverlist_ping::{lemma_status_fits, PacketServerList, SERVER_STATUS_JSON};
use crate::random::{is_random_uuid, new_random_uuid};

verus! {

/// Where the client is in the protocol.
#[allow(non_camel_case_types)]
#[derive(Debug, Clone, Copy, PartialEq, Eq, Structural)]
pub enum ConnectionState {
    HANDSHAKING,
    STATUS,
    PING,
    LOGIN,
    PROXY,
    FINISHED,
}

/// Where the backend server connection is.
#[allow(non_camel_case_types)]
#[derive(Debug, Clone, Copy, PartialEq, Eq, Structural)]
pub enum ProxyState {
    CONNECTING,
    PROXYING,
}

/// What the client's handshake said, kept to replay it to the backend.
pub struct Handshake {
    pub protocol_version: i32,
    pub server_address: String,
    pub port: u16,
}

impl Handshake {
    /// The handshake to send to the backend: the client's fields, asking for
    /// the login state (2).
    pub fn to_packet(&self) -> (packet: PacketHandshake)
        ensures
            packet.protocol_version == Some(self.protocol_version),
            packet.server_address matches Some(a) && a@ == self.server_address@,
            packet.port == Some(self.port),
            packet.next_state == Some(2i32),
    {
        PacketHandshake {
            protocol_version: Some(self.protocol_version),
            server_address: Some(self.server_address.clone()),
            port: Some(self.port),
            next_state: Some(2),
        }
    }
}

/// The protocol state of one proxied client.
pub struct ProxiedConnection {
    pub connection_state: ConnectionState,
    pub proxy_state: ProxyState,
    pub handshake: Option<Handshake>,
    pub username: Option<String>,
}

/// What the driver of a connection does next.
#[derive(Debug, Clone, Copy, PartialEq, Eq, Structural)]
pub enum NextStep {
    /// Receive a packet from the client.
    ReadClient,
    /// Relay traffic between client and backend.
    Proxy,
    /// Nothing to do yet: the backend has not accepted the login.
    Wait,
    /// The connection is done.
    Finish,
}

/// The answer to a client packet.
pub enum ProxyAction {
    /// Nothing is sent.
    Continue,
    /// Send this frame to the client.
    Reply(Vec<u8>),
    /// Send this frame to the client, then connect to the backend.
    ReplyAndConnect(Vec<u8>),
}

/// The frame of the status response.
pub open spec fn status_frame() -> Seq<u8> {
    frame_bytes(varint_bytes(0) + string_bytes(SERVER_STATUS_JSON@))
}

/// The frame of the pong that echoes `challenge`.
pub open spec fn pong_frame(challenge: i64) -> Seq<u8> {
    frame_bytes(varint_bytes(1) + i64_bytes(challenge))
}

/// The frame of the login success for `uuid` and `username`.
pub open spec fn login_success_frame(uuid: u128, username: Seq<char>) -> Seq<u8> {
    frame_bytes(varint_bytes(2) + login_success_bytes(uuid, username))
}

/// The state that a handshake asking for `next` leads to from `state`.
pub open spec fn state_after_handshake(state: ConnectionState, next: i32) -> ConnectionState {
    if next == 1 {
        ConnectionState::STATUS
    } else if next == 2 {
        ConnectionState::LOGIN
    } else {
        state
    }
}

/// How a client packet `packet_id`, whose body starts `input`, moves `old`
/// to `new`, what it answers and how many bytes of `input` it takes;
/// `uuid` is the UUID a login is given. Bytes not taken stay unread: a
/// packet that is ignored takes none of its body.
pub open spec fn client_step(
    old: ProxiedConnection,
    new: ProxiedConnection,
    packet_id: i32,
    input: Seq<u8>,
    uuid: u128,
    res: Result<(ProxyAction, usize), ProtocolError>,
) -> bool {
    let unchanged = new == old;
    let ignored = unchanged && (res matches Ok((ProxyAction::Continue, n)) && n == 0);
    match old.connection_state {
        ConnectionState::HANDSHAKING => if packet_id != 0 {
            ignored
        } else {
            match parse_handshake(input) {
                Err(e) => unchanged && res == Err::<(ProxyAction, usize), ProtocolError>(e),
                Ok((version, address, port, next, n)) => {
                    &&& res matches Ok((ProxyAction::Continue, m)) && m == n
                    &&& new.handshake matches Some(h) && h.protocol_version == version
                        && h.server_address@ == address && h.port == port
                    &&& new.connection_state == state_after_handshake(old.connection_state, next)
                    &&& new.proxy_state == old.proxy_state
                    &&& new.username == old.username
                },
            }
        },
        ConnectionState::STATUS => if packet_id != 0 {
            ignored
        } else {
            &&& res matches Ok((ProxyAction::Reply(f), m)) && f@ == status_frame() && m == 0
            &&& new == (ProxiedConnection { connection_state: ConnectionState::PING, ..old })
        },
        ConnectionState::PING => if packet_id != 1 {
            ignored
        } else {
            match parse_i64(input) {
                Err(e) => unchanged && res == Err::<(ProxyAction, usize), ProtocolError>(e),
                Ok((challenge, n)) => {
                    &&& res matches Ok((ProxyAction::Reply(f), m)) && f@ == pong_frame(challenge)
                        && m == n
                    &&& new == (ProxiedConnection { connection_state: ConnectionState::FINISHED, ..old })
                },
            }
        },
        ConnectionState::LOGIN => if packet_id != 0 {
            ignored
        } else {
            match parse_string(input) {
                Err(e) => unchanged && res == Err::<(ProxyAction, usize), ProtocolError>(e),
                Ok((name, n)) => {
                    &&& res matches Ok((ProxyAction::ReplyAndConnect(f), m))
                        && f@ == login_success_frame(uuid, name) && m == n
                    &&& new.username matches Some(u) && u@ == name
                    &&& new.connection_state == ConnectionState::PROXY
                    &&& new.proxy_state == old.proxy_state
                    &&& new.handshake == old.handshake
                },
            }
        },
        ConnectionState::PROXY | ConnectionState::FINISHED => ignored,
    }
}

/// Starting the backend login moves `old` to `new` and gives `packets`:
/// the client's handshake, asking for login, and its user name.
pub open spec fn backend_login_start(
    old: ProxiedConnection,
    new: ProxiedConnection,
    packets: (PacketHandshake, PacketLoginStart),
) -> bool {
    let h = old.handshake->0;
    &&& new.proxy_state == ProxyState::CONNECTING
    &&& new.connection_state == old.connection_state
    &&& new.handshake == old.handshake
    &&& new.username == old.username
    &&& packets.0.protocol_version == Some(h.protocol_version)
    &&& packets.0.server_address matches Some(a) && a@ == h.server_address@
    &&& packets.0.port == Some(h.port)
    &&& packets.0.next_state == Some(2i32)
    &&& packets.1.username matches Some(u) && u@ == old.username->0@
}

/// How the backend's packet `packet_id`, whose body starts `input`, moves
/// `old` to `new`, and the bytes of `input` it takes.
pub open spec fn server_login_step(
    old: ProxiedConnection,
    new: ProxiedConnection,
    packet_id: i32,
    input: Seq<u8>,
    res: Result<usize, ProtocolError>,
) -> bool {
    if packet_id != 2 {
        res == Ok::<usize, ProtocolError>(0) && new == old
    } else {
        match parse_login_success(input) {
            Ok((_, _, n)) => res == Ok::<usize, ProtocolError>(n as usize) && new == (
            ProxiedConnection { proxy_state: ProxyState::PROXYING, ..old }),
            Err(e) => res == Err::<usize, ProtocolError>(e) && new == old,
        }
    }
}

impl ProxiedConnection {
    /// The states agree with what has been received: past the handshake a
    /// handshake is stored, and once proxying a user name is known.
    pub open spec fn wf(&self) -> bool {
        &&& self.connection_state != ConnectionState::HANDSHAKING ==> self.handshake is Some
        &&& self.connection_state == ConnectionState::PROXY ==> self.username is Some
    }

    /// A connection that waits for the client's handshake.
    pub fn new() -> (conn: Self)
        ensures
            conn.connection_state == ConnectionState::HANDSHAKING,
            conn.proxy_state == ProxyState::CONNECTING,
            conn.handshake is None,
            conn.username is None,
            conn.wf(),
    {
        Self {
            connection_state: ConnectionState::HANDSHAKING,
            proxy_state: ProxyState::CONNECTING,
            handshake: None,
            username: None,
        }
    }

    /// What the driver does next in the current state.
    pub fn next_step(&self) -> (step: NextStep)
        ensures
            step == match self.connection_state {
                ConnectionState::PROXY => if self.proxy_state == ProxyState::PROXYING {
                    NextStep::Proxy
                } else {
                    NextStep::Wait
                },
                ConnectionState::FINISHED => NextStep::Finish,
                _ => NextStep::ReadClient,
            },
    {
        match self.connection_state {
            ConnectionState::PROXY => match self.proxy_state {
                ProxyState::PROXYING => NextStep::Proxy,
                ProxyState::CONNECTING => NextStep::Wait,
            },
            ConnectionState::FINISHED => NextStep::Finish,
            _ => NextStep::ReadClient,
        }
    }

    /// Stores the client's handshake and moves to the state it asks for:
    /// status for 1, login for 2; any other value leaves the state as it is.
    pub fn handle_handshake(&mut self, handshake: PacketHandshake)
        requires
            handshake.complete(),
        ensures
            final(self).handshake matches Some(h) && h.protocol_version
                == handshake.protocol_version->0 && h.server_address@
                == handshake.server_address->0@ && h.port == handshake.port->0,
            final(self).connection_state == state_after_handshake(
                old(self).connection_state,
                handshake.next_state->0,
            ),
            final(self).proxy_state == old(self).proxy_state,
            final(self).username == old(self).username,
    {
        match (
            handshake.protocol_version,
            handshake.server_address,
            handshake.port,
            handshake.next_state,
        ) {
            (Some(protocol_version), Some(server_address), Some(port), Some(next_state)) => {
                self.handshake = Some(Handshake { protocol_version, port, server_address });
                if next_state == 1 {
                    self.connection_state = ConnectionState::STATUS;
                } else if next_state == 2 {
                    self.connection_state = ConnectionState::LOGIN;
                }
            },
            _ => {},
        }
    }

    /// Handles a client packet whose body starts `input`, `uuid` being the
    /// UUID a login is given; gives the answer and the bytes of `input` taken.
    pub fn handle_client_packet(&mut self, packet_id: i32, input: &[u8], uuid: u128) -> (res: Result<
        (ProxyAction, usize),
        ProtocolError,
    >)
        requires
            old(self).wf(),
        ensures
            client_step(*old(self), *final(self), packet_id, input@, uuid, res),
            final(self).wf(),
    {
        match self.connection_state {
            ConnectionState::HANDSHAKING => {
                if packet_id != 0 {
                    return Ok((ProxyAction::Continue, 0));
                }
                let input_len = input.len();
                assert(input@.len() == input_len);
                proof {
                    crate::packets::handshake::lemma_parse_handshake_len(input@);
                }
                let mut handshake = PacketHandshake::default();
                let n = match handshake.read(input) {
                    Ok(n) => n,
                    Err(e) => return Err(e),
                };
                self.handle_handshake(handshake);
                Ok((ProxyAction::Continue, n))
            },
            ConnectionState::STATUS => {
                if packet_id != 0 {
                    return Ok((ProxyAction::Continue, 0));
                }
                let status = PacketServerList {};
                let mut frame: Vec<u8> = Vec::new();
                frame.send_packet(&status);
                self.connection_state = ConnectionState::PING;
                Ok((ProxyAction::Reply(frame), 0))
            },
            ConnectionState::PING => {
                if packet_id != 1 {
                    return Ok((ProxyAction::Continue, 0));
                }
                let mut ping = PacketPingPong::default();
                let n = match ping.read(input) {
                    Ok(n) => n,
                    Err(e) => return Err(e),
                };
                let mut frame: Vec<u8> = Vec::new();
                frame.send_packet(&ping);
                assert(frame@ =~= pong_frame(ping.challenge->0));
                self.connection_state = ConnectionState::FINISHED;
                Ok((ProxyAction::Reply(frame), n))
            },
            ConnectionState::LOGIN => {
                if packet_id != 0 {
                    return Ok((ProxyAction::Continue, 0));
                }
                let input_len = input.len();
                assert(input@.len() == input_len);
                proof {
                    crate::codec::lemma_parse_string_len(input@);
                }
                let mut login_start = PacketLoginStart::default();
                let n = match login_start.read(input) {
                    Ok(n) => n,
                    Err(e) => return Err(e),
                };
                let username = match login_start.username {
                    Some(u) => u,
                    None => return Err(ProtocolError::UnexpectedEnd),
                };
                let login_success = PacketLoginSuccess {
                    username: Some(username.clone()),
                    uuid: Some(uuid),
                };
                let mut frame: Vec<u8> = Vec::new();
                frame.send_packet(&login_success);
                self.username = Some(username);
                self.connection_state = ConnectionState::PROXY;
                Ok((ProxyAction::ReplyAndConnect(frame), n))
            },
            ConnectionState::PROXY => Ok((ProxyAction::Continue, 0)),
            ConnectionState::FINISHED => Ok((ProxyAction::Continue, 0)),
        }
    }

    /// Handles a client packet whose body starts `input`; a login is given a
    /// fresh random UUID.
    pub fn receive_client_packet(&mut self, packet_id: i32, input: &[u8]) -> (res: Result<
        (ProxyAction, usize),
        ProtocolError,
    >)
        requires
            old(self).wf(),
        ensures
            exists|uuid: u128|
                is_random_uuid(uuid) && client_step(
                    *old(self),
                    *final(self),
                    packet_id,
                    input@,
                    uuid,
                    res,
                ),
            final(self).wf(),
    {
        let uuid = new_random_uuid();
        self.handle_client_packet(packet_id, input, uuid)
    }

    /// Starts the backend login: gives the handshake (asking for login) and
    /// the login start to send to the backend.
    pub fn connect_to_server(&mut self) -> (packets: (PacketHandshake, PacketLoginStart))
        requires
            old(self).handshake is Some,
            old(self).username is Some,
        ensures
            backend_login_start(*old(self), *final(self), packets),
    {
        self.proxy_state = ProxyState::CONNECTING;
        let handshake = match &self.handshake {
            Some(h) => h.to_packet(),
            None => PacketHandshake::default(),
        };
        let username = match &self.username {
            Some(u) => u.clone(),
            None => String::new(),
        };
        (handshake, PacketLoginStart { username: Some(username) })
    }

    /// Handles the backend's answer to the login, whose body starts `input`:
    /// a login success (id 2) that reads completely starts proxying; any other
    /// id changes nothing and takes no bytes. Gives the bytes of `input` taken.
    pub fn handle_server_login(&mut self, packet_id: i32, input: &[u8]) -> (res: Result<
        usize,
        ProtocolError,
    >)
        ensures
            server_login_step(*old(self), *final(self), packet_id, input@, res),
            old(self).wf() ==> final(self).wf(),
    {
        if packet_id != 2 {
            return Ok(0);
        }
        let mut login_success = PacketLoginSuccess::default();
        let n = match login_success.read(input) {
            Ok(n) => n,
            Err(e) => return Err(e),
        };
        if login_success.username.is_some() {
            self.proxy_state = ProxyState::PROXYING;
        }
        Ok(n)
    }
}

/// How far along the protocol a state is: handshake, then status or login,
/// then ping or proxying, then done.
pub open spec fn progress(state: ConnectionState) -> nat {
    match state {
        ConnectionState::HANDSHAKING => 0,
        ConnectionState::STATUS => 1,
        ConnectionState::LOGIN => 1,
        ConnectionState::PING => 2,
        ConnectionState::PROXY => 2,
        ConnectionState::FINISHED => 3,
    }
}

/// A client packet never moves a connection back: its progress does not
/// decrease, and a refused packet changes nothing.
pub proof fn lemma_client_step_forward(
    old: ProxiedConnection,
    new: ProxiedConnection,
    packet_id: i32,
    input: Seq<u8>,
    uuid: u128,
    res: Result<(ProxyAction, usize), ProtocolError>,
)
    requires
        client_step(old, new, packet_id, input, uuid, res),
    ensures
        progress(new.connection_state) >= progress(old.connection_state),
        res is Err ==> new == old,
{
}

/// Once the status exchange is over or the client is handed to the backend,
/// client packets are ignored: nothing changes and nothing is sent.
pub proof fn lemma_client_step_settled(
    old: ProxiedConnection,
    new: ProxiedConnection,
    packet_id: i32,
    input: Seq<u8>,
    uuid: u128,
    res: Result<(ProxyAction, usize), ProtocolError>,
)
    requires
        client_step(old, new, packet_id, input, uuid, res),
        old.connection_state == ConnectionState::FINISHED || old.connection_state
            == ConnectionState::PROXY,
    ensures
        new == old,
        res matches Ok((ProxyAction::Continue, n)) && n == 0,
{
}

/// One client packet as a run sees it: its id, the bytes its body starts,
/// and the UUID a login would be given.
pub type ClientEvent = (i32, Seq<u8>, u128);

/// The connection `new` gives.
pub open spec fn is_fresh(c: ProxiedConnection) -> bool {
    &&& c.connection_state == ConnectionState::HANDSHAKING
    &&& c.proxy_state == ProxyState::CONNECTING
    &&& c.handshake is None
    &&& c.username is None
}

/// Step `i` of a run: packet `events[i]` moves `states[i]` to
/// `states[i + 1]` with answer `results[i]`.
pub open spec fn run_step(
    states: Seq<ProxiedConnection>,
    events: Seq<ClientEvent>,
    results: Seq<Result<(ProxyAction, usize), ProtocolError>>,
    i: int,
) -> bool {
    client_step(states[i], states[i + 1], events[i].0, events[i].1, events[i].2, results[i])
}

/// A run of a connection from `new`: `states[0]` is fresh and each packet
/// of `events` is handled in turn.
pub open spec fn client_run(
    states: Seq<ProxiedConnection>,
    events: Seq<ClientEvent>,
    results: Seq<Result<(ProxyAction, usize), ProtocolError>>,
) -> bool {
    &&& states.len() == events.len() + 1
    &&& results.len() == events.len()
    &&& is_fresh(states[0])
    &&& forall|i: int| 0 <= i < events.len() ==> #[trigger] run_step(states, events, results, i)
}

/// At step `j` a handshake asking for `next` was accepted.
pub open spec fn handshake_accepted(
    states: Seq<ProxiedConnection>,
    events: Seq<ClientEvent>,
    j: int,
    next: i32,
) -> bool {
    &&& 0 <= j < events.len()
    &&& states[j].connection_state == ConnectionState::HANDSHAKING
    &&& events[j].0 == 0
    &&& parse_handshake(events[j].1) matches Ok((_, _, _, nx, _)) && nx == next
}

/// At step `j` the status request (id 0) was answered.
pub open spec fn status_answered(states: Seq<ProxiedConnection>, events: Seq<ClientEvent>, j: int) -> bool {
    &&& 0 <= j < events.len()
    &&& states[j].connection_state == ConnectionState::STATUS
    &&& events[j].0 == 0
}

/// At step `j` a ping (id 1) was answered.
pub open spec fn ping_answered(states: Seq<ProxiedConnection>, events: Seq<ClientEvent>, j: int) -> bool {
    &&& 0 <= j < events.len()
    &&& states[j].connection_state == ConnectionState::PING
    &&& events[j].0 == 1
    &&& parse_i64(events[j].1) is Ok
}

/// At step `j` a login start (id 0) was answered.
pub open spec fn login_answered(states: Seq<ProxiedConnection>, events: Seq<ClientEvent>, j: int) -> bool {
    &&& 0 <= j < events.len()
    &&& states[j].connection_state == ConnectionState::LOGIN
    &&& events[j].0 == 0
    &&& parse_string(events[j].1) is Ok
}

/// Before step `i` a handshake asking for `next` was accepted.
pub open spec fn handshake_before(
    states: Seq<ProxiedConnection>,
    events: Seq<ClientEvent>,
    i: int,
    next: i32,
) -> bool {
    exists|h: int| h < i && #[trigger] handshake_accepted(states, events, h, next)
}

/// Before step `i` the status request was answered, after a status handshake.
pub open spec fn status_before(states: Seq<ProxiedConnection>, events: Seq<ClientEvent>, i: int) -> bool {
    exists|j: int|
        j < i && #[trigger] status_answered(states, events, j) && handshake_before(
            states,
            events,
            j,
            1,
        )
}

/// Before step `i` a ping was answered, after the status exchange.
pub open spec fn ping_before(states: Seq<ProxiedConnection>, events: Seq<ClientEvent>, i: int) -> bool {
    exists|k: int| k < i && #[trigger] ping_answered(states, events, k) && status_before(states, events, k)
}

/// Before step `i` a login start was answered, after a login handshake.
pub open spec fn login_before(states: Seq<ProxiedConnection>, events: Seq<ClientEvent>, i: int) -> bool {
    exists|j: int|
        j < i && #[trigger] login_answered(states, events, j) && handshake_before(
            states,
            events,
            j,
            2,
        )
}

/// What the state at step `i` says about the packets before it.
pub open spec fn history(states: Seq<ProxiedConnection>, events: Seq<ClientEvent>, i: int) -> bool {
    match states[i].connection_state {
        ConnectionState::HANDSHAKING => true,
        ConnectionState::STATUS => handshake_before(states, events, i, 1),
        ConnectionState::PING => status_before(states, events, i),
        ConnectionState::FINISHED => ping_before(states, events, i),
        ConnectionState::LOGIN => handshake_before(states, events, i, 2),
        ConnectionState::PROXY => login_before(states, events, i),
    }
}

proof fn lemma_run_history(
    states: Seq<ProxiedConnection>,
    events: Seq<ClientEvent>,
    results: Seq<Result<(ProxyAction, usize), ProtocolError>>,
    i: int,
)
    requires
        client_run(states, events, results),
        0 <= i <= events.len(),
    ensures
        history(states, events, i),
    decreases i,
{
    if i > 0 {
        let p = i - 1;
        lemma_run_history(states, events, results, p);
        assert(run_step(states, events, results, p));
        let old = states[p];
        let new = states[i];
        if new.connection_state == old.connection_state {
            match old.connection_state {
                ConnectionState::STATUS => {
                    let h = choose|h: int| h < p && #[trigger] handshake_accepted(states, events, h, 1);
                    assert(handshake_accepted(states, events, h, 1));
                },
                ConnectionState::LOGIN => {
                    let h = choose|h: int| h < p && #[trigger] handshake_accepted(states, events, h, 2);
                    assert(handshake_accepted(states, events, h, 2));
                },
                ConnectionState::PING => {
                    let j = choose|j: int|
                        j < p && #[trigger] status_answered(states, events, j) && handshake_before(
                            states,
                            events,
                            j,
                            1,
                        );
                    assert(status_answered(states, events, j));
                },
                ConnectionState::FINISHED => {
                    let k = choose|k: int|
                        k < p && #[trigger] ping_answered(states, events, k) && status_before(
                            states,
                            events,
                            k,
                        );
                    assert(ping_answered(states, events, k));
                },
                ConnectionState::PROXY => {
                    let j = choose|j: int|
                        j < p && #[trigger] login_answered(states, events, j) && handshake_before(
                            states,
                            events,
                            j,
                            2,
                        );
                    assert(login_answered(states, events, j));
                },
                ConnectionState::HANDSHAKING => {},
            }
        } else {
            match old.connection_state {
                ConnectionState::HANDSHAKING => {
                    if new.connection_state == ConnectionState::STATUS {
                        assert(handshake_accepted(states, events, p, 1));
                    } else {
                        assert(handshake_accepted(states, events, p, 2));
                    }
                },
                ConnectionState::STATUS => {
                    assert(status_answered(states, events, p));
                },
                ConnectionState::PING => {
                    assert(ping_answered(states, events, p));
                },
                ConnectionState::LOGIN => {
                    assert(login_answered(states, events, p));
                },
                _ => {},
            }
        }
    }
}

/// What may be written at step `i` of a run: a reply `f` or, when
/// `connects`, a reply before connecting to the backend.
pub open spec fn allowed_reply(
    states: Seq<ProxiedConnection>,
    events: Seq<ClientEvent>,
    i: int,
    f: Seq<u8>,
    connects: bool,
) -> bool {
    if connects {
        &&& states[i].connection_state == ConnectionState::LOGIN
        &&& events[i].0 == 0
        &&& (parse_string(events[i].1) matches Ok((name, _)) && f == login_success_frame(
            events[i].2,
            name,
        ))
        &&& handshake_before(states, events, i, 2)
    } else {
        ||| (states[i].connection_state == ConnectionState::STATUS && events[i].0 == 0 && f
            == status_frame() && handshake_before(states, events, i, 1))
        ||| (states[i].connection_state == ConnectionState::PING && events[i].0 == 1 && (parse_i64(
            events[i].1,
        ) matches Ok((c, _)) && f == pong_frame(c)) && status_before(states, events, i))
    }
}

/// What step `i` of a run writes is allowed there.
pub open spec fn reply_in_order(
    states: Seq<ProxiedConnection>,
    events: Seq<ClientEvent>,
    results: Seq<Result<(ProxyAction, usize), ProtocolError>>,
    i: int,
) -> bool {
    match results[i] {
        Ok((ProxyAction::Reply(f), _)) => allowed_reply(states, events, i, f@, false),
        Ok((ProxyAction::ReplyAndConnect(f), _)) => allowed_reply(states, events, i, f@, true),
        _ => true,
    }
}

/// Over a whole run from `new`, replies come only in protocol order: the
/// status only for a status request after a handshake asking for status;
/// the pong only for a ping after that status exchange, echoing the ping's
/// challenge; the login success only for a login start after a handshake
/// asking for login, carrying that name. Nothing is sent before a handshake.
pub proof fn lemma_client_run_reply_order(
    states: Seq<ProxiedConnection>,
    events: Seq<ClientEvent>,
    results: Seq<Result<(ProxyAction, usize), ProtocolError>>,
)
    requires
        client_run(states, events, results),
    ensures
        forall|i: int| 0 <= i < events.len() ==> #[trigger] reply_in_order(states, events, results, i),
{
    assert forall|i: int| 0 <= i < events.len() implies #[trigger] reply_in_order(
        states,
        events,
        results,
        i,
    ) by {
        lemma_run_history(states, events, results, i);
        assert(run_step(states, events, results, i));
    }
}

/// The status frame reads back as id 0 followed by exactly the status
/// document as a string.
pub proof fn lemma_status_frame_decodes()
    ensures
        decode_frame(status_frame()) matches Some((id, b)) && id == 0 && parse_string(b) == Ok::<
            (Seq<char>, nat),
            ProtocolError,
        >((SERVER_STATUS_JSON@, b.len())),
{
    let body = string_bytes(SERVER_STATUS_JSON@);
    lemma_status_fits();
    lemma_varint_roundtrip(0, Seq::empty());
    lemma_varint_roundtrip(vstd::utf8::encode_utf8(SERVER_STATUS_JSON@).len() as i32, Seq::empty());
    lemma_decode_frame(0, body);
    lemma_string_roundtrip(SERVER_STATUS_JSON@, Seq::empty());
    assert(body + Seq::<u8>::empty() =~= body);
}

/// The pong frame for `challenge` reads back as id 1 followed by exactly
/// the challenge's eight bytes.
pub proof fn lemma_pong_frame_decodes(challenge: i64)
    ensures
        decode_frame(pong_frame(challenge)) matches Some((id, b)) && id == 1 && b.len() == 8
            && parse_i64(b) == Ok::<(i64, nat), ProtocolError>((challenge, 8)),
{
    lemma_varint_roundtrip(1, Seq::empty());
    lemma_i64_roundtrip(challenge, Seq::empty());
    lemma_decode_frame(1, i64_bytes(challenge));
    assert(i64_bytes(challenge) + Seq::<u8>::empty() =~= i64_bytes(challenge));
}

/// The login success frame for `uuid` and `name` reads back as id 2
/// followed by exactly that UUID and that name.
pub proof fn lemma_login_success_frame_decodes(uuid: u128, name: Seq<char>)
    requires
        vstd::utf8::encode_utf8(name).len() <= 0x7fff_0000,
    ensures
        decode_frame(login_success_frame(uuid, name)) matches Some((id, b)) && id == 2
            && parse_login_success(b) == Ok::<(u128, Seq<char>, nat), ProtocolError>(
            (uuid, name, b.len()),
        ),
{
    let body = login_success_bytes(uuid, name);
    lemma_varint_roundtrip(2, Seq::empty());
    lemma_varint_roundtrip(vstd::utf8::encode_utf8(name).len() as i32, Seq::empty());
    crate::codec::lemma_u128_roundtrip(uuid, Seq::empty());
    lemma_decode_frame(2, body);
    lemma_login_success_roundtrip(uuid, name, Seq::empty());
    assert(body + Seq::<u8>::empty() =~= body);
}

/// A client handshake in the handshaking state takes exactly the bytes of
/// the handshake, leaving whatever follows it unread; the stored handshake
/// holds the version, address and port the client sent; status (1) and
/// login (2) are entered as asked, any other request changes no state.
pub proof fn lemma_client_handshake(
    old: ProxiedConnection,
    new: ProxiedConnection,
    version: i32,
    address: Seq<char>,
    port: u16,
    next: i32,
    rest: Seq<u8>,
    uuid: u128,
    res: Result<(ProxyAction, usize), ProtocolError>,
)
    requires
        old.connection_state == ConnectionState::HANDSHAKING,
        string_fits(address),
        client_step(old, new, 0, handshake_bytes(version, address, port, next) + rest, uuid, res),
    ensures
        res matches Ok((ProxyAction::Continue, m)) && m == handshake_bytes(
            version,
            address,
            port,
            next,
        ).len(),
        new.handshake matches Some(h) && h.protocol_version == version && h.server_address@
            == address && h.port == port,
        next == 1 ==> new.connection_state == ConnectionState::STATUS,
        next == 2 ==> new.connection_state == ConnectionState::LOGIN,
        next != 1 && next != 2 ==> new.connection_state == ConnectionState::HANDSHAKING,
        new.username == old.username,
        new.proxy_state == old.proxy_state,
{
    lemma_handshake_roundtrip(version, address, port, next, rest);
}

/// A status request in the status state takes no bytes and is answered by
/// a frame that reads back as id 0 and the status document; the ping comes
/// next.
pub proof fn lemma_client_status(
    old: ProxiedConnection,
    new: ProxiedConnection,
    input: Seq<u8>,
    uuid: u128,
    res: Result<(ProxyAction, usize), ProtocolError>,
)
    requires
        old.connection_state == ConnectionState::STATUS,
        client_step(old, new, 0, input, uuid, res),
    ensures
        res matches Ok((ProxyAction::Reply(f), m)) && m == 0 && (decode_frame(f@) matches Some(
            (id, b),
        ) && id == 0 && parse_string(b) == Ok::<(Seq<char>, nat), ProtocolError>(
            (SERVER_STATUS_JSON@, b.len()),
        )),
        new.connection_state == ConnectionState::PING,
{
    lemma_status_frame_decodes();
}

/// A ping whose body starts with the eight bytes of `challenge` takes
/// exactly those bytes and is answered by a frame that reads back as id 1
/// and the same challenge; the connection is then finished.
pub proof fn lemma_client_ping(
    old: ProxiedConnection,
    new: ProxiedConnection,
    challenge: i64,
    rest: Seq<u8>,
    uuid: u128,
    res: Result<(ProxyAction, usize), ProtocolError>,
)
    requires
        old.connection_state == ConnectionState::PING,
        client_step(old, new, 1, i64_bytes(challenge) + rest, uuid, res),
    ensures
        res matches Ok((ProxyAction::Reply(f), m)) && m == 8 && (decode_frame(f@) matches Some(
            (id, b),
        ) && id == 1 && parse_i64(b) == Ok::<(i64, nat), ProtocolError>((challenge, 8))),
        new.connection_state == ConnectionState::FINISHED,
{
    lemma_i64_roundtrip(challenge, rest);
    lemma_pong_frame_decodes(challenge);
}

/// A login start whose body starts with the string `name` takes exactly
/// that string's bytes, records `name` as the user name, and is answered by
/// a frame that reads back as id 2 with the given UUID and that same name;
/// the backend hand-over comes next.
pub proof fn lemma_client_login(
    old: ProxiedConnection,
    new: ProxiedConnection,
    name: Seq<char>,
    rest: Seq<u8>,
    uuid: u128,
    res: Result<(ProxyAction, usize), ProtocolError>,
)
    requires
        old.connection_state == ConnectionState::LOGIN,
        vstd::utf8::encode_utf8(name).len() <= 0x7fff_0000,
        client_step(old, new, 0, string_bytes(name) + rest, uuid, res),
    ensures
        res matches Ok((ProxyAction::ReplyAndConnect(f), m)) && m == string_bytes(name).len() && (
        decode_frame(f@) matches Some((id, b)) && id == 2 && parse_login_success(b) == Ok::<
            (u128, Seq<char>, nat),
            ProtocolError,
        >((uuid, name, b.len()))),
        new.username matches Some(u) && u@ == name,
        new.connection_state == ConnectionState::PROXY,
        new.handshake == old.handshake,
{
    lemma_string_roundtrip(name, rest);
    lemma_login_success_frame_decodes(uuid, name);
}

/// The handshake sent to the backend, once written, reads back as the
/// client's own protocol version, address and port, asking for login (2);
/// the login start carries the client's user name.
pub proof fn lemma_backend_handshake(
    old: ProxiedConnection,
    new: ProxiedConnection,
    packets: (PacketHandshake, PacketLoginStart),
    rest: Seq<u8>,
)
    requires
        old.handshake is Some,
        old.username is Some,
        string_fits(old.handshake->0.server_address@),
        backend_login_start(old, new, packets),
    ensures
        packets.0.writable(),
        parse_handshake(packets.0.body() + rest) == Ok::<(i32, Seq<char>, u16, i32, nat), ProtocolError>(
            (
                old.handshake->0.protocol_version,
                old.handshake->0.server_address@,
                old.handshake->0.port,
                2,
                packets.0.body().len(),
            ),
        ),
        packets.1.username matches Some(u) && u@ == old.username->0@,
        new.proxy_state == ProxyState::CONNECTING,
{
    let h = old.handshake->0;
    lemma_handshake_roundtrip(h.protocol_version, h.server_address@, h.port, 2, rest);
}

/// A login success from the backend takes exactly its own bytes, leaving
/// what follows unread, and starts proxying; nothing else about the
/// connection changes. Any other packet takes nothing and changes nothing.
pub proof fn lemma_server_login(
    old: ProxiedConnection,
    new: ProxiedConnection,
    packet_id: i32,
    uuid: u128,
    name: Seq<char>,
    rest: Seq<u8>,
    res: Result<usize, ProtocolError>,
)
    requires
        string_fits(name),
        server_login_step(old, new, packet_id, login_success_bytes(uuid, name) + rest, res),
    ensures
        packet_id == 2 ==> res == Ok::<usize, ProtocolError>(
            login_success_bytes(uuid, name).len() as usize,
        ) && new.proxy_state == ProxyState::PROXYING && new.connection_state
            == old.connection_state && new.handshake == old.handshake && new.username
            == old.username,
        packet_id != 2 ==> res == Ok::<usize, ProtocolError>(0) && new == old,
{
    lemma_login_success_roundtrip(uuid, name, rest);
}

/// The packet id each state waits for: the handshake, the status request
/// and the login start are id 0, the ping is id 1.
pub open spec fn expected_id(state: ConnectionState) -> Option<i32> {
    match state {
        ConnectionState::HANDSHAKING => Some(0),
        ConnectionState::STATUS => Some(0),
        ConnectionState::LOGIN => Some(0),
        ConnectionState::PING => Some(1),
        _ => None,
    }
}

/// A client packet with any other id than the one the state waits for
/// takes none of its body, sends nothing and changes nothing.
pub proof fn lemma_client_unexpected_id(
    old: ProxiedConnection,
    new: ProxiedConnection,
    packet_id: i32,
    input: Seq<u8>,
    uuid: u128,
    res: Result<(ProxyAction, usize), ProtocolError>,
)
    requires
        expected_id(old.connection_state) != Some(packet_id),
        client_step(old, new, packet_id, input, uuid, res),
    ensures
        new == old,
        res matches Ok((ProxyAction::Continue, n)) && n == 0,
{
}

} // verus!

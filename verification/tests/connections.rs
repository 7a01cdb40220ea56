use minecraft_proxy::codec::{read_u128, read_varint, write_string, write_u16, write_varint};
use minecraft_proxy::connection::proxied_connection::{
    ConnectionState, Handshake, NextStep, ProxiedConnection, ProxyAction, ProxyState,
};
use minecraft_proxy::connection::user_connection::{
    ConnectionState as UserState, UserConnection,
};
use minecraft_proxy::errors::ProtocolError;
use minecraft_proxy::packet::Packet;
use minecraft_proxy::packets::handshake::PacketHandshake;
use minecraft_proxy::packets::serverlist_ping::SERVER_STATUS_JSON;

fn handshake_body(next: i32) -> Vec<u8> {
    let mut out = Vec::new();
    write_varint(753, &mut out);
    write_string("mc.example.org", &mut out);
    write_u16(25565, &mut out);
    write_varint(next, &mut out);
    out
}

fn name_body(name: &str) -> Vec<u8> {
    let mut out = Vec::new();
    write_string(name, &mut out);
    out
}

/// Splits a frame into (declared length, packet id, body).
fn split_frame(frame: &[u8]) -> (usize, i32, Vec<u8>) {
    let (len, k) = read_varint(frame).unwrap();
    assert_eq!(len as usize, frame.len() - k);
    let (id, m) = read_varint(&frame[k..]).unwrap();
    (len as usize, id, frame[k + m..].to_vec())
}

#[test]
fn status_exchange_ends_finished() {
    let mut c = ProxiedConnection::new();
    assert_eq!(c.next_step(), NextStep::ReadClient);
    let body = handshake_body(1);
    assert!(matches!(c.handle_client_packet(0, &body, 0), Ok((ProxyAction::Continue, n)) if n == body.len()));
    assert_eq!(c.connection_state, ConnectionState::STATUS);
    let h = c.handshake.as_ref().unwrap();
    assert_eq!(h.protocol_version, 753);
    assert_eq!(h.server_address, "mc.example.org");
    assert_eq!(h.port, 25565);

    let frame = match c.handle_client_packet(0, &[7, 7], 0) {
        Ok((ProxyAction::Reply(f), 0)) => f,
        _ => panic!("expected a status reply taking no bytes"),
    };
    let (_, id, body) = split_frame(&frame);
    assert_eq!(id, 0);
    let (len, n) = read_varint(&body).unwrap();
    assert_eq!(len as usize, SERVER_STATUS_JSON.len());
    assert_eq!(&body[n..], SERVER_STATUS_JSON.as_bytes());
    assert_eq!(c.connection_state, ConnectionState::PING);

    let frame = match c.handle_client_packet(1, &[0, 0, 0, 0, 0, 0, 0, 42, 9], 0) {
        Ok((ProxyAction::Reply(f), 8)) => f,
        _ => panic!("expected a pong taking eight bytes"),
    };
    assert_eq!(frame, vec![9, 1, 0, 0, 0, 0, 0, 0, 0, 42]);
    assert_eq!(c.connection_state, ConnectionState::FINISHED);
    assert_eq!(c.next_step(), NextStep::Finish);
    assert!(matches!(c.handle_client_packet(0, &[], 0), Ok((ProxyAction::Continue, 0))));
    assert_eq!(c.connection_state, ConnectionState::FINISHED);
}

#[test]
fn unexpected_ids_are_ignored() {
    let mut c = ProxiedConnection::new();
    // an ignored packet takes none of its body
    assert!(matches!(c.handle_client_packet(3, &[1, 2], 0), Ok((ProxyAction::Continue, 0))));
    assert_eq!(c.connection_state, ConnectionState::HANDSHAKING);
    assert!(c.handshake.is_none());
    c.handle_client_packet(0, &handshake_body(1), 0).unwrap();
    assert!(matches!(c.handle_client_packet(1, &[], 0), Ok((ProxyAction::Continue, 0))));
    assert_eq!(c.connection_state, ConnectionState::STATUS);
}

#[test]
fn unknown_next_state_keeps_handshaking() {
    let mut c = ProxiedConnection::new();
    c.handle_client_packet(0, &handshake_body(7), 0).unwrap();
    assert_eq!(c.connection_state, ConnectionState::HANDSHAKING);
    assert!(c.handshake.is_some());
}

#[test]
fn malformed_packets_are_refused_without_change() {
    let mut c = ProxiedConnection::new();
    let body = handshake_body(1);
    assert_eq!(
        c.handle_client_packet(0, &body[..body.len() - 1], 0).err(),
        Some(ProtocolError::UnexpectedEnd)
    );
    assert_eq!(c.connection_state, ConnectionState::HANDSHAKING);
    assert!(c.handshake.is_none());

    c.handle_client_packet(0, &body, 0).unwrap();
    c.handle_client_packet(0, &[], 0).unwrap();
    assert_eq!(c.handle_client_packet(1, &[1, 2, 3], 0).err(), Some(ProtocolError::UnexpectedEnd));
    assert_eq!(c.connection_state, ConnectionState::PING);
}

#[test]
fn login_hands_over_to_backend() {
    let mut c = ProxiedConnection::new();
    c.handle_client_packet(0, &handshake_body(2), 0).unwrap();
    assert_eq!(c.connection_state, ConnectionState::LOGIN);

    let uuid: u128 = 0x1111_2222_3333_4444_5555_6666_7777_8888;
    let mut input = name_body("Steve");
    input.extend_from_slice(&[0xaa, 0xbb]);
    let frame = match c.handle_client_packet(0, &input, uuid) {
        Ok((ProxyAction::ReplyAndConnect(f), 6)) => f,
        _ => panic!("expected a login success taking the name's six bytes"),
    };
    let (_, id, body) = split_frame(&frame);
    assert_eq!(id, 2);
    assert_eq!(read_u128(&body), Ok((uuid, 16)));
    assert_eq!(&body[16..], &[5, b'S', b't', b'e', b'v', b'e']);
    assert_eq!(c.connection_state, ConnectionState::PROXY);
    assert_eq!(c.username.as_deref(), Some("Steve"));
    assert_eq!(c.next_step(), NextStep::Wait);

    let (handshake, login_start) = c.connect_to_server();
    assert_eq!(handshake.protocol_version, Some(753));
    assert_eq!(handshake.server_address.as_deref(), Some("mc.example.org"));
    assert_eq!(handshake.port, Some(25565));
    assert_eq!(handshake.next_state, Some(2));
    assert_eq!(login_start.username.as_deref(), Some("Steve"));
    assert_eq!(c.proxy_state, ProxyState::CONNECTING);

    // a packet other than login success changes nothing
    assert_eq!(c.handle_server_login(3, &[0x80, 0x02]), Ok(0));
    assert_eq!(c.proxy_state, ProxyState::CONNECTING);
    // a truncated login success is refused
    assert_eq!(c.handle_server_login(2, &[0u8; 10]), Err(ProtocolError::UnexpectedEnd));
    assert_eq!(c.proxy_state, ProxyState::CONNECTING);

    let mut reply = vec![0u8; 16];
    reply.extend_from_slice(&name_body("Steve"));
    reply.push(0x55);
    assert_eq!(c.handle_server_login(2, &reply), Ok(22));
    assert_eq!(c.proxy_state, ProxyState::PROXYING);
    assert_eq!(c.next_step(), NextStep::Proxy);
    assert!(matches!(c.handle_client_packet(0, &name_body("x"), 0), Ok((ProxyAction::Continue, 0))));
}

#[test]
fn fresh_login_uuid_is_random_version_four() {
    let mut c = ProxiedConnection::new();
    c.receive_client_packet(0, &handshake_body(2)).unwrap();
    let frame = match c.receive_client_packet(0, &name_body("Alex")) {
        Ok((ProxyAction::ReplyAndConnect(f), 5)) => f,
        _ => panic!("expected a login success"),
    };
    let (_, _, body) = split_frame(&frame);
    let (uuid, _) = read_u128(&body).unwrap();
    assert_eq!((uuid >> 76) & 0xf, 4);
    assert_eq!((uuid >> 62) & 0x3, 2);
}

#[test]
fn handshake_replayed_to_backend_asks_for_login() {
    let h = Handshake { protocol_version: 5, server_address: "a.b".to_string(), port: 7 };
    let p = h.to_packet();
    let mut out = Vec::new();
    p.write(&mut out);
    assert_eq!(out, vec![5, 3, b'a', b'.', b'b', 0, 7, 2]);
    let mut back = PacketHandshake::default();
    assert_eq!(back.read(&out), Ok(8));
    assert_eq!(back.next_state, Some(2));
}

#[test]
fn handle_handshake_stores_fields() {
    let mut c = ProxiedConnection::new();
    c.handle_handshake(PacketHandshake {
        protocol_version: Some(1),
        server_address: Some("h".to_string()),
        port: Some(2),
        next_state: Some(2),
    });
    assert_eq!(c.connection_state, ConnectionState::LOGIN);
    let h = c.handshake.as_ref().unwrap();
    assert_eq!((h.protocol_version, h.server_address.as_str(), h.port), (1, "h", 2));
}

#[test]
fn user_connection_status_exchange() {
    let mut u = UserConnection::new();
    assert_eq!(u.state, UserState::HANDSHAKING);
    let body = handshake_body(1);
    assert_eq!(u.handle_packet(0, &body, 0), Ok((None, body.len())));
    assert_eq!(u.state, UserState::STATUS);
    let (frame, n) = u.handle_packet(0, &[], 0).unwrap();
    assert_eq!(n, 0);
    let (_, id, _) = split_frame(&frame.unwrap());
    assert_eq!(id, 0);
    assert_eq!(u.state, UserState::PING);
    let (frame, n) = u.handle_packet(1, &[0, 0, 0, 0, 0, 0, 1, 0], 0).unwrap();
    assert_eq!(n, 8);
    assert_eq!(frame.unwrap(), vec![9, 1, 0, 0, 0, 0, 0, 0, 1, 0]);
    assert_eq!(u.state, UserState::FINISHED);
    assert_eq!(u.handle_packet(0, &[], 0), Ok((None, 0)));
    assert_eq!(u.state, UserState::FINISHED);
}

#[test]
fn user_connection_login() {
    let mut u = UserConnection::new();
    u.handle_packet(0, &handshake_body(2), 0).unwrap();
    assert_eq!(u.state, UserState::LOGIN);
    // an unreadable login start is ignored
    assert_eq!(u.handle_packet(0, &[9, b'a'], 0), Ok((None, 0)));
    assert_eq!(u.state, UserState::LOGIN);
    let (frame, n) = u.handle_packet(0, &name_body("Notch"), 77).unwrap();
    assert_eq!(n, 6);
    let (_, id, body) = split_frame(&frame.unwrap());
    assert_eq!(id, 2);
    assert_eq!(read_u128(&body), Ok((77, 16)));
    assert_eq!(u.state, UserState::PLAY);
    assert_eq!(u.username.as_deref(), Some("Notch"));
    assert_eq!(u.handle_packet(0, &name_body("x"), 0), Ok((None, 0)));
    assert_eq!(u.username.as_deref(), Some("Notch"));
}

#[test]
fn user_connection_refuses_bad_ping() {
    let mut u = UserConnection::new();
    u.handle_packet(0, &handshake_body(1), 0).unwrap();
    u.handle_packet(0, &[], 0).unwrap();
    assert_eq!(u.handle_packet(1, &[1], 0), Err(ProtocolError::UnexpectedEnd));
    assert_eq!(u.state, UserState::PING);
    let mut fresh = UserConnection::new();
    fresh.receive_packet(0, &handshake_body(2)).unwrap();
    let (frame, _) = fresh.receive_packet(0, &name_body("Alex")).unwrap();
    let (_, _, body) = split_frame(&frame.unwrap());
    let (uuid, _) = read_u128(&body).unwrap();
    assert_eq!((uuid >> 76) & 0xf, 4);
}

#[test]
fn replies_follow_protocol_order() {
    // a ping before the status exchange, a status request before the
    // handshake, and stray ids are all answered with nothing
    let mut c = ProxiedConnection::new();
    let mut written: Vec<Vec<u8>> = Vec::new();
    let events: Vec<(i32, Vec<u8>)> = vec![
        (1, vec![0, 0, 0, 0, 0, 0, 0, 1]),
        (5, vec![]),
        (0, handshake_body(1)),
        (1, vec![0, 0, 0, 0, 0, 0, 0, 1]),
        (0, vec![]),
        (0, vec![]),
        (1, vec![0, 0, 0, 0, 0, 0, 0, 3]),
        (1, vec![0, 0, 0, 0, 0, 0, 0, 4]),
    ];
    for (id, body) in events {
        match c.handle_client_packet(id, &body, 0) {
            Ok((ProxyAction::Reply(f), _)) | Ok((ProxyAction::ReplyAndConnect(f), _)) => {
                written.push(f)
            }
            _ => {}
        }
    }
    assert_eq!(written.len(), 2);
    assert_eq!(split_frame(&written[0]).1, 0);
    assert_eq!(written[1], vec![9, 1, 0, 0, 0, 0, 0, 0, 0, 3]);
}

use minecraft_proxy::codec::read_varint;
use minecraft_proxy::errors::ProtocolError;
use minecraft_proxy::packet::{get_packet_size, Packet, PacketReceiver};
use minecraft_proxy::packets::handshake::PacketHandshake;
use minecraft_proxy::packets::login_start::PacketLoginStart;
use minecraft_proxy::packets::login_success::PacketLoginSuccess;
use minecraft_proxy::packets::ping_pong::PacketPingPong;
use minecraft_proxy::packets::serverlist_ping::{PacketServerList, SERVER_STATUS_JSON};
use minecraft_proxy::packets::set_compression::PacketSetCompression;

fn sample_handshake() -> PacketHandshake {
    PacketHandshake {
        protocol_version: Some(753),
        server_address: Some("localhost".to_string()),
        port: Some(25565),
        next_state: Some(1),
    }
}

#[test]
fn handshake_bytes_and_id() {
    let h = sample_handshake();
    let mut out = Vec::new();
    h.write(&mut out);
    let mut expected = vec![0xf1, 0x05, 9];
    expected.extend_from_slice(b"localhost");
    expected.extend_from_slice(&[0x63, 0xdd, 0x01]);
    assert_eq!(out, expected);
    assert_eq!(h.get_id(), 0);
}

#[test]
fn handshake_read_gives_back_write() {
    let h = sample_handshake();
    let mut out = Vec::new();
    h.write(&mut out);
    let n = out.len();
    out.extend_from_slice(&[1, 2, 3]);
    let mut back = PacketHandshake::default();
    assert_eq!(back.read(&out), Ok(n));
    assert_eq!(back.protocol_version, Some(753));
    assert_eq!(back.server_address.as_deref(), Some("localhost"));
    assert_eq!(back.port, Some(25565));
    assert_eq!(back.next_state, Some(1));
}

#[test]
fn handshake_read_failure_leaves_packet_alone() {
    let mut h = PacketHandshake::default();
    // version, address, then only one byte of the port
    let bytes = [0x01, 0x01, b'a', 0x63];
    assert_eq!(h.read(&bytes), Err(ProtocolError::UnexpectedEnd));
    assert_eq!(h.protocol_version, None);
    assert_eq!(h.server_address, None);
    assert_eq!(h.port, None);
    assert_eq!(h.next_state, None);
}

#[test]
fn default_packets_are_empty() {
    let h = PacketHandshake::default();
    assert!(h.protocol_version.is_none() && h.server_address.is_none());
    assert!(h.port.is_none() && h.next_state.is_none());
    assert!(PacketLoginStart::default().username.is_none());
    let s = PacketLoginSuccess::default();
    assert!(s.uuid.is_none() && s.username.is_none());
    assert!(PacketPingPong::default().challenge.is_none());
    assert!(PacketSetCompression::default().threshhold.is_none());
}

#[test]
fn login_start_reads_name_and_keeps_it_on_failure() {
    let mut p = PacketLoginStart::default();
    assert_eq!(p.read(&[5, b'S', b't', b'e', b'v', b'e']), Ok(6));
    assert_eq!(p.username.as_deref(), Some("Steve"));
    assert_eq!(p.read(&[5, b'A']), Err(ProtocolError::UnexpectedEnd));
    assert_eq!(p.username.as_deref(), Some("Steve"));
    assert_eq!(p.get_id(), 0);
}

#[test]
fn login_success_roundtrip() {
    let p = PacketLoginSuccess {
        uuid: Some(0x0123456789abcdef_0011223344556677),
        username: Some("Alex".to_string()),
    };
    let mut out = Vec::new();
    p.write(&mut out);
    assert_eq!(out.len(), 16 + 1 + 4);
    assert_eq!(&out[..2], &[0x01, 0x23]);
    assert_eq!(&out[16..], &[4, b'A', b'l', b'e', b'x']);
    let mut back = PacketLoginSuccess::default();
    assert_eq!(back.read(&out), Ok(21));
    assert_eq!(back.uuid, p.uuid);
    assert_eq!(back.username.as_deref(), Some("Alex"));
    assert_eq!(back.get_id(), 2);
    let mut short = PacketLoginSuccess::default();
    assert_eq!(short.read(&out[..20]), Err(ProtocolError::UnexpectedEnd));
    assert!(short.uuid.is_none());
}

#[test]
fn ping_pong_echo() {
    let mut ping = PacketPingPong::default();
    assert_eq!(ping.read(&[0, 0, 0, 0, 0, 0, 0x30, 0x39]), Ok(8));
    assert_eq!(ping.challenge, Some(12345));
    let mut out = Vec::new();
    ping.write(&mut out);
    assert_eq!(out, vec![0, 0, 0, 0, 0, 0, 0x30, 0x39]);
    let mut empty = Vec::new();
    PacketPingPong::default().write(&mut empty);
    assert!(empty.is_empty());
    assert_eq!(ping.get_id(), 1);
    assert_eq!(PacketPingPong::default().read(&[1, 2]), Err(ProtocolError::UnexpectedEnd));
}

#[test]
fn set_compression_threshold() {
    let mut p = PacketSetCompression::default();
    assert_eq!(p.read(&[0x80, 0x02]), Ok(2));
    assert_eq!(p.threshhold, Some(256));
    let mut out = Vec::new();
    p.write(&mut out);
    assert_eq!(out, vec![0x80, 0x02]);
    assert_eq!(p.get_id(), 3);
    let mut none = Vec::new();
    PacketSetCompression::default().write(&mut none);
    assert!(none.is_empty());
}

#[test]
fn server_list_body_is_the_status_document() {
    let p = PacketServerList {};
    let mut out = Vec::new();
    p.write(&mut out);
    let (len, n) = read_varint(&out).unwrap();
    assert_eq!(len as usize, SERVER_STATUS_JSON.len());
    assert_eq!(&out[n..], SERVER_STATUS_JSON.as_bytes());
    assert!(SERVER_STATUS_JSON.contains("\"protocol\": 753"));
    assert_eq!(p.get_id(), 0);
}

#[test]
fn packet_size_and_frame() {
    let ping = PacketPingPong { challenge: Some(7) };
    assert_eq!(get_packet_size(&ping), 9);
    let mut frame: Vec<u8> = Vec::new();
    frame.send_packet(&ping);
    assert_eq!(frame, vec![9, 1, 0, 0, 0, 0, 0, 0, 0, 7]);

    let h = sample_handshake();
    let size = get_packet_size(&h);
    let mut frame: Vec<u8> = vec![0xaa];
    frame.send_packet(&h);
    assert_eq!(frame[0], 0xaa);
    let (len, k) = read_varint(&frame[1..]).unwrap();
    assert_eq!(len as usize, size);
    assert_eq!(frame.len(), 1 + k + size);
    let (id, m) = read_varint(&frame[1 + k..]).unwrap();
    assert_eq!(id, 0);
    let mut back = PacketHandshake::default();
    assert_eq!(back.read(&frame[1 + k + m..]), Ok(size - m));
    assert_eq!(back.server_address.as_deref(), Some("localhost"));
}

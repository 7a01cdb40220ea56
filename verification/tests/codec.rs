use minecraft_proxy::codec::{
    read_i64, read_string, read_u128, read_u16, read_varint, write_i64, write_string,
    write_u128, write_u16, write_varint,
};
use minecraft_proxy::errors::ProtocolError;

fn varint(v: i32) -> Vec<u8> {
    let mut out = Vec::new();
    write_varint(v, &mut out);
    out
}

#[test]
fn varint_known_encodings() {
    assert_eq!(varint(0), vec![0x00]);
    assert_eq!(varint(1), vec![0x01]);
    assert_eq!(varint(127), vec![0x7f]);
    assert_eq!(varint(128), vec![0x80, 0x01]);
    assert_eq!(varint(255), vec![0xff, 0x01]);
    assert_eq!(varint(25565), vec![0xdd, 0xc7, 0x01]);
    assert_eq!(varint(2097151), vec![0xff, 0xff, 0x7f]);
    assert_eq!(varint(2147483647), vec![0xff, 0xff, 0xff, 0xff, 0x07]);
    assert_eq!(varint(-1), vec![0xff, 0xff, 0xff, 0xff, 0x0f]);
    assert_eq!(varint(-2147483648), vec![0x80, 0x80, 0x80, 0x80, 0x08]);
}

#[test]
fn varint_appends_to_existing_bytes() {
    let mut out = vec![9u8, 9];
    write_varint(300, &mut out);
    assert_eq!(out, vec![9, 9, 0xac, 0x02]);
}

#[test]
fn varint_known_decodings() {
    assert_eq!(read_varint(&[0x00]), Ok((0, 1)));
    assert_eq!(read_varint(&[0xdd, 0xc7, 0x01]), Ok((25565, 3)));
    assert_eq!(read_varint(&[0xff, 0xff, 0xff, 0xff, 0x0f]), Ok((-1, 5)));
    assert_eq!(read_varint(&[0x80, 0x80, 0x80, 0x80, 0x08]), Ok((-2147483648, 5)));
    // bits beyond 32 in the fifth byte are dropped
    assert_eq!(read_varint(&[0xff, 0xff, 0xff, 0xff, 0x7f]), Ok((-1, 5)));
    // a padded encoding is accepted
    assert_eq!(read_varint(&[0x80, 0x00]), Ok((0, 2)));
}

#[test]
fn varint_stops_at_its_last_byte() {
    assert_eq!(read_varint(&[0x80, 0x01, 0xff, 0xff]), Ok((128, 2)));
}

#[test]
fn varint_errors() {
    assert_eq!(read_varint(&[]), Err(ProtocolError::UnexpectedEnd));
    assert_eq!(read_varint(&[0x80]), Err(ProtocolError::UnexpectedEnd));
    assert_eq!(read_varint(&[0xff, 0xff, 0xff, 0xff]), Err(ProtocolError::UnexpectedEnd));
    assert_eq!(read_varint(&[0xff, 0xff, 0xff, 0xff, 0xff]), Err(ProtocolError::VarIntTooBig));
    assert_eq!(
        read_varint(&[0x80, 0x80, 0x80, 0x80, 0x80, 0x01]),
        Err(ProtocolError::VarIntTooBig)
    );
}

#[test]
fn varint_roundtrip_on_samples() {
    for v in [0, 1, -1, 63, 64, 127, 128, 16383, 16384, 1 << 20, i32::MAX, i32::MIN, -12345] {
        let mut bytes = varint(v);
        let n = bytes.len();
        assert!((1..=5).contains(&n));
        bytes.extend_from_slice(&[0x80, 0x80]);
        assert_eq!(read_varint(&bytes), Ok((v, n)));
    }
}

#[test]
fn fixed_width_integers() {
    let mut out = Vec::new();
    write_u16(25565, &mut out);
    assert_eq!(out, vec![0x63, 0xdd]);
    assert_eq!(read_u16(&out), Ok((25565, 2)));
    assert_eq!(read_u16(&[0x01]), Err(ProtocolError::UnexpectedEnd));

    let mut out = Vec::new();
    write_i64(-2, &mut out);
    assert_eq!(out, vec![0xff, 0xff, 0xff, 0xff, 0xff, 0xff, 0xff, 0xfe]);
    assert_eq!(read_i64(&out), Ok((-2, 8)));
    let mut out = Vec::new();
    write_i64(0x0102030405060708, &mut out);
    assert_eq!(out, vec![1, 2, 3, 4, 5, 6, 7, 8]);
    assert_eq!(read_i64(&[1, 2, 3, 4, 5, 6, 7]), Err(ProtocolError::UnexpectedEnd));

    let mut out = Vec::new();
    let id: u128 = 0x4566e69f_c907_48ee_8d71_d7ba5aa00d20;
    write_u128(id, &mut out);
    assert_eq!(
        out,
        vec![
            0x45, 0x66, 0xe6, 0x9f, 0xc9, 0x07, 0x48, 0xee, 0x8d, 0x71, 0xd7, 0xba, 0x5a, 0xa0,
            0x0d, 0x20
        ]
    );
    out.push(7);
    assert_eq!(read_u128(&out), Ok((id, 16)));
    assert_eq!(read_u128(&out[..15]), Err(ProtocolError::UnexpectedEnd));
}

#[test]
fn strings_roundtrip() {
    let mut out = Vec::new();
    write_string("abc", &mut out);
    assert_eq!(out, vec![3, b'a', b'b', b'c']);
    let (s, n) = read_string(&out).unwrap();
    assert_eq!(s, "abc");
    assert_eq!(n, 4);

    let mut out = Vec::new();
    write_string("héllo", &mut out);
    assert_eq!(out[0], 6);
    out.push(0xff);
    let (s, n) = read_string(&out).unwrap();
    assert_eq!(s, "héllo");
    assert_eq!(n, 7);

    let mut out = Vec::new();
    write_string("", &mut out);
    assert_eq!(out, vec![0]);
    assert_eq!(read_string(&out).unwrap(), (String::new(), 1));
}

#[test]
fn string_errors() {
    assert_eq!(read_string(&[]), Err(ProtocolError::UnexpectedEnd));
    assert_eq!(read_string(&[3, b'a', b'b']), Err(ProtocolError::UnexpectedEnd));
    assert_eq!(read_string(&[2, 0xc3, 0x28]), Err(ProtocolError::InvalidUtf8));
    assert_eq!(
        read_string(&[0xff, 0xff, 0xff, 0xff, 0x0f, b'a']),
        Err(ProtocolError::NegativeLength)
    );
    assert_eq!(read_string(&[0xff, 0xff, 0xff, 0xff, 0xff]), Err(ProtocolError::VarIntTooBig));
}

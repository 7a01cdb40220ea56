//! The primitive wire types of the protocol: VarInt, big-endian integers
//! and length-prefixed UTF-8 strings.
use vstd::prelude::*;
use crate::errors::ProtocolError;
use vstd::utf8::{decode_utf8, encode_utf8, valid_utf8};

verus! {

/// Most bytes a VarInt may take.
pub const VARINT_MAX_BYTES: usize = 5;

/// The seven-bit groups of `u`, least significant first, each but the
/// last carrying the continuation bit.
pub open spec fn varint_digits(u: nat) -> Seq<u8>
    decreases u,
{
    if u < 128 {
        seq![u as u8]
    } else {
        seq![(u % 128 + 128) as u8] + varint_digits(u / 128)
    }
}

/// The VarInt encoding of `x`: its two's-complement bits as an unsigned
/// 32-bit number, in seven-bit groups.
pub open spec fn varint_bytes(x: i32) -> Seq<u8> {
    varint_digits((x as u32) as nat)
}

/// Reads seven-bit groups from the front of `s`, at most `budget` of them:
/// the accumulated number and the count of bytes taken.
pub open spec fn parse_varint_digits(s: Seq<u8>, budget: nat) -> Result<(nat, nat), ProtocolError>
    decreases s.len(),
{
    if s.len() == 0 {
        Err(ProtocolError::UnexpectedEnd)
    } else if s[0] < 128 {
        Ok((s[0] as nat, 1))
    } else if budget <= 1 {
        Err(ProtocolError::VarIntTooBig)
    } else {
        match parse_varint_digits(s.drop_first(), (budget - 1) as nat) {
            Ok((v, n)) => Ok((((s[0] - 128) + 128 * v) as nat, n + 1)),
            Err(e) => Err(e),
        }
    }
}

/// The `i32` whose two's-complement bits are the low 32 bits of `v`.
pub open spec fn varint_value(v: nat) -> i32 {
    (v % 0x1_0000_0000) as u32 as i32
}

/// What decoding a VarInt from the front of `s` gives: the value and the
/// number of bytes it took.
pub open spec fn parse_varint(s: Seq<u8>) -> Result<(i32, nat), ProtocolError> {
    match parse_varint_digits(s, VARINT_MAX_BYTES as nat) {
        Ok((v, n)) => Ok((varint_value(v), n)),
        Err(e) => Err(e),
    }
}

pub open spec fn pow128(n: nat) -> nat
    decreases n,
{
    if n == 0 {
        1
    } else {
        128 * pow128((n - 1) as nat)
    }
}

proof fn lemma_parse_varint_digits_bounds(s: Seq<u8>, budget: nat)
    ensures
        parse_varint_digits(s, budget) matches Ok((v, n)) ==> {
            &&& 1 <= n <= s.len()
            &&& (n <= budget || n == 1)
            &&& v < pow128(n)
        },
    decreases s.len(),
{
    reveal_with_fuel(pow128, 2);
    if s.len() > 0 && s[0] >= 128 && budget > 1 {
        let t = s.drop_first();
        lemma_parse_varint_digits_bounds(t, (budget - 1) as nat);
        if let Ok((v, n)) = parse_varint_digits(t, (budget - 1) as nat) {
            assert(pow128(n + 1) == 128 * pow128(n));
            assert((s[0] - 128) + 128 * v < 128 * pow128(n));
        }
    }
}

proof fn lemma_varint_digits_len(u: nat, k: nat)
    requires
        u < pow128(k),
        k >= 1,
    ensures
        1 <= varint_digits(u).len() <= k,
    decreases u,
{
    if u >= 128 {
        assert(k >= 2) by {
            if k == 1 {
                assert(pow128(1) == 128 * pow128(0));
            }
        }
        assert(u / 128 < pow128((k - 1) as nat));
        lemma_varint_digits_len(u / 128, (k - 1) as nat);
    }
}

proof fn lemma_parse_varint_digits_of_encoding(u: nat, rest: Seq<u8>, budget: nat)
    requires
        varint_digits(u).len() <= budget,
    ensures
        parse_varint_digits(varint_digits(u) + rest, budget) == Ok::<(nat, nat), ProtocolError>(
            (u, varint_digits(u).len()),
        ),
    decreases u,
{
    let s = varint_digits(u) + rest;
    if u < 128 {
        assert(s[0] == u as u8);
    } else {
        let tail = varint_digits(u / 128);
        assert(s.drop_first() =~= tail + rest);
        lemma_parse_varint_digits_of_encoding(u / 128, rest, (budget - 1) as nat);
        assert(s[0] == (u % 128 + 128) as u8);
    }
}

/// Decoding the VarInt encoding of `x`, followed by anything, gives back `x`
/// and the length of its encoding; that encoding takes one to five bytes.
pub proof fn lemma_varint_roundtrip(x: i32, rest: Seq<u8>)
    ensures
        1 <= varint_bytes(x).len() <= 5,
        parse_varint(varint_bytes(x) + rest) == Ok::<(i32, nat), ProtocolError>(
            (x, varint_bytes(x).len()),
        ),
{
    let u = (x as u32) as nat;
    reveal_with_fuel(pow128, 6);
    lemma_varint_digits_len(u, 5);
    lemma_parse_varint_digits_of_encoding(u, rest, 5);
    assert((x as u32) as i32 == x) by (bit_vector);
    assert(u % 0x1_0000_0000 == u);
}

/// Decoding does not look past the bytes it consumed: what decodes from `s`
/// decodes the same from `s` followed by anything.
pub proof fn lemma_varint_prefix(s: Seq<u8>, rest: Seq<u8>)
    ensures
        parse_varint(s) is Ok ==> parse_varint(s + rest) == parse_varint(s),
{
    lemma_parse_varint_digits_prefix(s, rest, 5);
}

proof fn lemma_parse_varint_digits_prefix(s: Seq<u8>, rest: Seq<u8>, budget: nat)
    ensures
        parse_varint_digits(s, budget) is Ok ==> parse_varint_digits(s + rest, budget)
            == parse_varint_digits(s, budget),
    decreases s.len(),
{
    if s.len() > 0 {
        assert((s + rest)[0] == s[0]);
        if s[0] >= 128 && budget > 1 {
            assert((s + rest).drop_first() =~= s.drop_first() + rest);
            lemma_parse_varint_digits_prefix(s.drop_first(), rest, (budget - 1) as nat);
        }
    }
}

/// Appends the VarInt encoding of `value` to `out`.
pub fn write_varint(value: i32, out: &mut Vec<u8>)
    ensures
        final(out)@ == old(out)@ + varint_bytes(value),
{
    let mut u: u32 = value as u32;
    let ghost start = old(out)@;
    while u >= 128
        invariant
            start + varint_bytes(value) == out@ + varint_digits(u as nat),
        decreases u,
    {
        let ghost before = out@;
        out.push((u % 128 + 128) as u8);
        assert(varint_digits(u as nat) == seq![(u % 128 + 128) as u8] + varint_digits(
            (u / 128) as nat,
        ));
        assert(before + varint_digits(u as nat) =~= out@ + varint_digits((u / 128) as nat));
        u = u / 128;
    }
    out.push(u as u8);
    assert(start + varint_bytes(value) =~= out@);
}

fn parse_varint_digits_at(input: &[u8], pos: usize, budget: usize) -> (res: Result<
    (u64, usize),
    ProtocolError,
>)
    requires
        pos <= input@.len(),
        1 <= budget <= VARINT_MAX_BYTES,
    ensures
        match parse_varint_digits(input@.skip(pos as int), budget as nat) {
            Ok((v, n)) => res == Ok::<(u64, usize), ProtocolError>((v as u64, n as usize)),
            Err(e) => res == Err::<(u64, usize), ProtocolError>(e),
        },
    decreases budget,
{
    let ghost s = input@.skip(pos as int);
    proof {
        lemma_parse_varint_digits_bounds(s, budget as nat);
        reveal_with_fuel(pow128, 6);
    }
    if pos >= input.len() {
        return Err(ProtocolError::UnexpectedEnd);
    }
    let b = input[pos];
    assert(s[0] == b);
    if b < 128 {
        return Ok((b as u64, 1));
    }
    if budget <= 1 {
        return Err(ProtocolError::VarIntTooBig);
    }
    assert(s.drop_first() =~= input@.skip(pos + 1));
    match parse_varint_digits_at(input, pos + 1, budget - 1) {
        Ok((v, n)) => {
            proof {
                lemma_parse_varint_digits_bounds(s.drop_first(), (budget - 1) as nat);
                assert(pow128(n as nat) <= pow128(4)) by {
                    assert(n <= 4);
                    lemma_pow128_monotone(n as nat, 4);
                }
            }
            Ok(((b - 128) as u64 + 128 * v, n + 1))
        },
        Err(e) => Err(e),
    }
}

proof fn lemma_pow128_monotone(a: nat, b: nat)
    requires
        a <= b,
    ensures
        pow128(a) <= pow128(b),
    decreases b,
{
    if a < b {
        lemma_pow128_monotone(a, (b - 1) as nat);
        assert(pow128(b) == 128 * pow128((b - 1) as nat));
    }
}

/// Decodes a VarInt from the front of `input`, giving the value and the
/// number of bytes it took.
pub fn read_varint(input: &[u8]) -> (res: Result<(i32, usize), ProtocolError>)
    ensures
        match parse_varint(input@) {
            Ok((v, n)) => res == Ok::<(i32, usize), ProtocolError>((v, n as usize)),
            Err(e) => res == Err::<(i32, usize), ProtocolError>(e),
        },
{
    assert(input@.skip(0) =~= input@);
    proof {
        lemma_parse_varint_digits_bounds(input@, 5);
        reveal_with_fuel(pow128, 6);
        if let Ok((v, n)) = parse_varint_digits(input@, 5) {
            lemma_pow128_monotone(n, 5);
        }
    }
    match parse_varint_digits_at(input, 0, VARINT_MAX_BYTES) {
        Ok((v, n)) => Ok((((v % 0x1_0000_0000) as u32) as i32, n)),
        Err(e) => Err(e),
    }
}


pub open spec fn pow256(n: nat) -> nat
    decreases n,
{
    if n == 0 {
        1
    } else {
        256 * pow256((n - 1) as nat)
    }
}

/// The low `n` bytes of `v`, most significant first.
pub open spec fn be_bytes(v: nat, n: nat) -> Seq<u8>
    decreases n,
{
    if n == 0 {
        Seq::empty()
    } else {
        be_bytes(v / 256, (n - 1) as nat).push((v % 256) as u8)
    }
}

/// The number whose big-endian bytes are `s`.
pub open spec fn be_value(s: Seq<u8>) -> nat
    decreases s.len(),
{
    if s.len() == 0 {
        0
    } else {
        be_value(s.drop_last()) * 256 + s.last() as nat
    }
}

/// Decoding an `n`-byte big-endian number from the front of `s`.
pub open spec fn parse_be(s: Seq<u8>, n: nat) -> Result<(nat, nat), ProtocolError> {
    if s.len() < n {
        Err(ProtocolError::UnexpectedEnd)
    } else {
        Ok((be_value(s.take(n as int)), n))
    }
}

pub open spec fn u16_bytes(x: u16) -> Seq<u8> {
    be_bytes(x as nat, 2)
}

pub open spec fn i64_bytes(x: i64) -> Seq<u8> {
    be_bytes((x as u64) as nat, 8)
}

pub open spec fn u128_bytes(x: u128) -> Seq<u8> {
    be_bytes(x as nat, 16)
}

pub open spec fn parse_u16(s: Seq<u8>) -> Result<(u16, nat), ProtocolError> {
    match parse_be(s, 2) {
        Ok((v, n)) => Ok((v as u16, n)),
        Err(e) => Err(e),
    }
}

pub open spec fn parse_i64(s: Seq<u8>) -> Result<(i64, nat), ProtocolError> {
    match parse_be(s, 8) {
        Ok((v, n)) => Ok((v as u64 as i64, n)),
        Err(e) => Err(e),
    }
}

pub open spec fn parse_u128(s: Seq<u8>) -> Result<(u128, nat), ProtocolError> {
    match parse_be(s, 16) {
        Ok((v, n)) => Ok((v as u128, n)),
        Err(e) => Err(e),
    }
}

proof fn lemma_pow256_positive(n: nat)
    ensures
        pow256(n) >= 1,
    decreases n,
{
    if n > 0 {
        lemma_pow256_positive((n - 1) as nat);
    }
}

proof fn lemma_pow256_monotone(a: nat, b: nat)
    requires
        a <= b,
    ensures
        pow256(a) <= pow256(b),
    decreases b,
{
    if a < b {
        lemma_pow256_monotone(a, (b - 1) as nat);
        lemma_pow256_positive((b - 1) as nat);
    }
}

proof fn lemma_be_bytes_len(v: nat, n: nat)
    ensures
        be_bytes(v, n).len() == n,
    decreases n,
{
    if n > 0 {
        lemma_be_bytes_len(v / 256, (n - 1) as nat);
    }
}

proof fn lemma_be_value_bound(s: Seq<u8>)
    ensures
        be_value(s) < pow256(s.len()),
    decreases s.len(),
{
    if s.len() > 0 {
        lemma_be_value_bound(s.drop_last());
        assert(pow256(s.len()) == 256 * pow256((s.len() - 1) as nat));
    }
}

proof fn lemma_be_value_of_bytes(v: nat, n: nat)
    ensures
        be_value(be_bytes(v, n)) == v % pow256(n),
    decreases n,
{
    if n > 0 {
        let m = (n - 1) as nat;
        lemma_be_value_of_bytes(v / 256, m);
        lemma_be_bytes_len(v / 256, m);
        assert(be_bytes(v, n).drop_last() =~= be_bytes(v / 256, m));
        lemma_pow256_positive(m);
        vstd::arithmetic::div_mod::lemma_mod_breakdown(v as int, 256, pow256(m) as int);
    } else {
        assert(v % 1 == 0);
    }
}

/// Decoding the `n`-byte big-endian encoding of `v < 256^n`, followed by
/// anything, gives back `v` and `n`.
pub proof fn lemma_be_roundtrip(v: nat, n: nat, rest: Seq<u8>)
    requires
        v < pow256(n),
    ensures
        be_bytes(v, n).len() == n,
        parse_be(be_bytes(v, n) + rest, n) == Ok::<(nat, nat), ProtocolError>((v, n)),
{
    lemma_be_bytes_len(v, n);
    lemma_be_value_of_bytes(v, n);
    vstd::arithmetic::div_mod::lemma_small_mod(v, pow256(n));
    assert((be_bytes(v, n) + rest).take(n as int) =~= be_bytes(v, n));
}

/// A fixed-width decode does not look past its bytes.
pub proof fn lemma_be_prefix(s: Seq<u8>, n: nat, rest: Seq<u8>)
    ensures
        parse_be(s, n) is Ok ==> parse_be(s + rest, n) == parse_be(s, n),
{
    if s.len() >= n {
        assert((s + rest).take(n as int) =~= s.take(n as int));
    }
}

proof fn lemma_pow256_values()
    ensures
        pow256(2) == 0x1_0000,
        pow256(8) == 0x1_0000_0000_0000_0000,
        pow256(15) == 0x1_0000_0000_0000_0000_0000_0000_0000_00,
        pow256(16) == 0x1_0000_0000_0000_0000_0000_0000_0000_0000,
{
    reveal_with_fuel(pow256, 17);
}

/// Decoding the encoding of a `u16`, followed by anything, gives it back.
pub proof fn lemma_u16_roundtrip(x: u16, rest: Seq<u8>)
    ensures
        u16_bytes(x).len() == 2,
        parse_u16(u16_bytes(x) + rest) == Ok::<(u16, nat), ProtocolError>((x, 2)),
{
    lemma_pow256_values();
    lemma_be_roundtrip(x as nat, 2, rest);
}

/// Decoding the encoding of an `i64`, followed by anything, gives it back.
pub proof fn lemma_i64_roundtrip(x: i64, rest: Seq<u8>)
    ensures
        i64_bytes(x).len() == 8,
        parse_i64(i64_bytes(x) + rest) == Ok::<(i64, nat), ProtocolError>((x, 8)),
{
    lemma_pow256_values();
    lemma_be_roundtrip((x as u64) as nat, 8, rest);
    assert((x as u64) as i64 == x) by (bit_vector);
}

/// Decoding the encoding of a `u128`, followed by anything, gives it back.
pub proof fn lemma_u128_roundtrip(x: u128, rest: Seq<u8>)
    ensures
        u128_bytes(x).len() == 16,
        parse_u128(u128_bytes(x) + rest) == Ok::<(u128, nat), ProtocolError>((x, 16)),
{
    lemma_pow256_values();
    lemma_be_roundtrip(x as nat, 16, rest);
}

fn write_be(value: u128, n: usize, out: &mut Vec<u8>)
    requires
        n <= 16,
    ensures
        final(out)@ == old(out)@ + be_bytes(value as nat, n as nat),
    decreases n,
{
    if n == 0 {
        assert(old(out)@ + be_bytes(value as nat, 0) =~= old(out)@);
        return ;
    }
    write_be(value / 256, n - 1, out);
    out.push((value % 256) as u8);
    assert(old(out)@ + be_bytes(value as nat, n as nat) =~= out@);
}

fn read_be_at(input: &[u8], pos: usize, n: usize) -> (r: u128)
    requires
        pos + n <= input@.len(),
        n <= 16,
    ensures
        r == be_value(input@.subrange(pos as int, pos + n)),
    decreases n,
{
    if n == 0 {
        return 0;
    }
    let hi = read_be_at(input, pos, n - 1);
    proof {
        let s = input@.subrange(pos as int, pos + n);
        assert(s.drop_last() =~= input@.subrange(pos as int, pos + n - 1));
        lemma_be_value_bound(input@.subrange(pos as int, pos + n - 1));
        lemma_pow256_monotone((n - 1) as nat, 15);
        lemma_pow256_values();
        assert(hi < 0x1_0000_0000_0000_0000_0000_0000_0000_00);
        assert(hi * 256 + 255 <= u128::MAX);
    }
    let len = input.len();
    assert(pos + n <= len);
    let b = input[pos + (n - 1)];
    hi * 256 + b as u128
}

/// Appends the big-endian bytes of `value`.
pub fn write_u16(value: u16, out: &mut Vec<u8>)
    ensures
        final(out)@ == old(out)@ + u16_bytes(value),
{
    write_be(value as u128, 2, out);
}

/// Appends the big-endian bytes of `value`'s two's complement.
pub fn write_i64(value: i64, out: &mut Vec<u8>)
    ensures
        final(out)@ == old(out)@ + i64_bytes(value),
{
    write_be((value as u64) as u128, 8, out);
}

/// Appends the big-endian bytes of `value`.
pub fn write_u128(value: u128, out: &mut Vec<u8>)
    ensures
        final(out)@ == old(out)@ + u128_bytes(value),
{
    write_be(value, 16, out);
}

/// Decodes a big-endian `u16` from the front of `input`.
pub fn read_u16(input: &[u8]) -> (res: Result<(u16, usize), ProtocolError>)
    ensures
        match parse_u16(input@) {
            Ok((v, n)) => res == Ok::<(u16, usize), ProtocolError>((v, n as usize)),
            Err(e) => res == Err::<(u16, usize), ProtocolError>(e),
        },
{
    if input.len() < 2 {
        return Err(ProtocolError::UnexpectedEnd);
    }
    let v = read_be_at(input, 0, 2);
    proof {
        assert(input@.subrange(0, 2) =~= input@.take(2));
        lemma_be_value_bound(input@.take(2));
        lemma_pow256_values();
    }
    Ok((v as u16, 2))
}

/// Decodes a big-endian two's-complement `i64` from the front of `input`.
pub fn read_i64(input: &[u8]) -> (res: Result<(i64, usize), ProtocolError>)
    ensures
        match parse_i64(input@) {
            Ok((v, n)) => res == Ok::<(i64, usize), ProtocolError>((v, n as usize)),
            Err(e) => res == Err::<(i64, usize), ProtocolError>(e),
        },
{
    if input.len() < 8 {
        return Err(ProtocolError::UnexpectedEnd);
    }
    let v = read_be_at(input, 0, 8);
    proof {
        assert(input@.subrange(0, 8) =~= input@.take(8));
        lemma_be_value_bound(input@.take(8));
        lemma_pow256_values();
    }
    Ok(((v as u64) as i64, 8))
}

/// Decodes a big-endian `u128` from the front of `input`.
pub fn read_u128(input: &[u8]) -> (res: Result<(u128, usize), ProtocolError>)
    ensures
        match parse_u128(input@) {
            Ok((v, n)) => res == Ok::<(u128, usize), ProtocolError>((v, n as usize)),
            Err(e) => res == Err::<(u128, usize), ProtocolError>(e),
        },
{
    if input.len() < 16 {
        return Err(ProtocolError::UnexpectedEnd);
    }
    let v = read_be_at(input, 0, 16);
    proof {
        assert(input@.subrange(0, 16) =~= input@.take(16));
    }
    Ok((v, 16))
}


/// The protocol's string: the UTF-8 byte count as a VarInt, then the bytes.
/// The count is taken as an `i32`, so a count beyond `i32::MAX` keeps only
/// its low 32 bits.
pub open spec fn string_bytes(chars: Seq<char>) -> Seq<u8> {
    varint_bytes(encode_utf8(chars).len() as i32) + encode_utf8(chars)
}

/// Whether a string's UTF-8 length can be written as a VarInt.
pub open spec fn string_fits(chars: Seq<char>) -> bool {
    encode_utf8(chars).len() <= i32::MAX
}

/// Decoding a string from the front of `s`: its characters and the number
/// of bytes taken.
pub open spec fn parse_string(s: Seq<u8>) -> Result<(Seq<char>, nat), ProtocolError> {
    match parse_varint(s) {
        Err(e) => Err(e),
        Ok((len, n)) => {
            if len < 0 {
                Err(ProtocolError::NegativeLength)
            } else if s.len() < n + len {
                Err(ProtocolError::UnexpectedEnd)
            } else if !valid_utf8(s.subrange(n as int, n + len)) {
                Err(ProtocolError::InvalidUtf8)
            } else {
                Ok((decode_utf8(s.subrange(n as int, n + len)), n + len as nat))
            }
        },
    }
}

/// Decoding the encoding of a string, followed by anything, gives it back.
pub proof fn lemma_string_roundtrip(chars: Seq<char>, rest: Seq<u8>)
    requires
        string_fits(chars),
    ensures
        parse_string(string_bytes(chars) + rest) == Ok::<(Seq<char>, nat), ProtocolError>(
            (chars, string_bytes(chars).len()),
        ),
{
    let body = encode_utf8(chars);
    let len = body.len() as i32;
    let s = string_bytes(chars) + rest;
    assert(s =~= varint_bytes(len) + (body + rest));
    lemma_varint_roundtrip(len, body + rest);
    let n = varint_bytes(len).len();
    assert(s.subrange(n as int, n + len) =~= body);
    vstd::utf8::encode_utf8_valid_utf8(chars);
    vstd::utf8::encode_utf8_decode_utf8(chars);
}

/// A string decode does not look past its bytes.
pub proof fn lemma_string_prefix(s: Seq<u8>, rest: Seq<u8>)
    ensures
        parse_string(s) is Ok ==> parse_string(s + rest) == parse_string(s),
{
    lemma_varint_prefix(s, rest);
    if let Ok((len, n)) = parse_varint(s) {
        if len >= 0 && s.len() >= n + len {
            assert((s + rest).subrange(n as int, n + len) =~= s.subrange(n as int, n + len));
        }
    }
}

/// `String::from_utf8`: the string whose UTF-8 encoding is `bytes`, or
/// nothing when `bytes` are not valid UTF-8. Claims that it succeeds exactly
/// on valid UTF-8 and that the characters are the UTF-8 decoding of the bytes.
#[verifier::external_body]
fn string_from_utf8(bytes: Vec<u8>) -> (res: Option<String>)
    ensures
        res is Some <==> valid_utf8(bytes@),
        res matches Some(s) ==> s@ == decode_utf8(bytes@),
{
    String::from_utf8(bytes).ok()
}

/// Appends the protocol encoding of `s`. A byte length beyond `i32::MAX`
/// is written as its low 32 bits, as the `i32` length field holds.
pub fn write_string(s: &str, out: &mut Vec<u8>)
    ensures
        final(out)@ == old(out)@ + string_bytes(s@),
{
    let bytes = s.as_bytes();
    assert(bytes@ == encode_utf8(s@));
    let len: usize = bytes.len();
    write_varint(len as i32, out);
    let ghost mid = out@;
    out.extend_from_slice(bytes);
    assert(out@ =~= mid + bytes@);
    assert(old(out)@ + string_bytes(s@) =~= out@);
}

/// Decodes a string from the front of `input`, giving it and the number of
/// bytes taken.
pub fn read_string(input: &[u8]) -> (res: Result<(String, usize), ProtocolError>)
    ensures
        match parse_string(input@) {
            Ok((chars, n)) => res matches Ok((s, m)) && s@ == chars && m == n,
            Err(e) => res == Err::<(String, usize), ProtocolError>(e),
        },
{
    proof {
        lemma_parse_varint_digits_bounds(input@, 5);
    }
    let (len, n) = match read_varint(input) {
        Ok(p) => p,
        Err(e) => return Err(e),
    };
    if len < 0 {
        return Err(ProtocolError::NegativeLength);
    }
    let len = len as usize;
    if input.len() - n < len {
        return Err(ProtocolError::UnexpectedEnd);
    }
    let body = vstd::slice::slice_to_vec(&input[n..n + len]);
    assert(body@ == input@.subrange(n as int, n + len));
    match string_from_utf8(body) {
        Some(s) => Ok((s, n + len)),
        None => Err(ProtocolError::InvalidUtf8),
    }
}


/// A decoded VarInt takes at least one byte and no more than the input has.
pub proof fn lemma_parse_varint_len(s: Seq<u8>)
    ensures
        parse_varint(s) matches Ok((v, n)) ==> 1 <= n <= s.len() && n <= 5,
{
    lemma_parse_varint_digits_bounds(s, 5);
}

/// A decoded string takes no more bytes than the input has.
pub proof fn lemma_parse_string_len(s: Seq<u8>)
    ensures
        parse_string(s) matches Ok((c, n)) ==> 1 <= n <= s.len(),
{
    lemma_parse_varint_len(s);
}

} // verus!

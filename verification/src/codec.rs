//! Wire codec: read / write / size for the primitive encodings of the
//! protocol — variable-length integers, fixed-width big-endian integers,
//! booleans, length-prefixed strings and byte sequences, and raw byte runs.

use vstd::prelude::*;
use vstd::slice::{slice_subrange, slice_to_vec};
use vstd::utf8::{encode_utf8, valid_utf8};

verus! {

/// Why a read failed. A failed read never consumes bytes and never panics.
#[derive(Debug, Clone, Copy, PartialEq, Eq, Structural)]
pub enum ReadError {
    /// Fewer bytes remain than the encoding requires.
    Underrun,
    /// A fifth varint byte still has its continuation bit set.
    VarIntTooLong,
    /// A length prefix exceeds the declared maximum.
    StringTooLong,
    /// String bytes that are not valid UTF-8.
    InvalidUtf8,
    /// A frame length no frame can have (zero, or not a 32-bit value).
    BadLength,
}

/// Why a write failed. A failed write leaves the buffer unchanged.
#[derive(Debug, Clone, Copy, PartialEq, Eq, Structural)]
pub enum WriteError {
    /// The value's encoded byte length exceeds the declared maximum.
    StringTooLong,
}

// ----------------------------------------------------------------------
// VarInt: little-endian base-128 groups, 7 value bits per byte, high bit
// set on every byte but the last, at most 5 bytes for a 32-bit value.
// ----------------------------------------------------------------------

/// The byte's continuation bit is set: more bytes follow.
pub open spec fn has_cont(b: u8) -> bool {
    b >= 0x80
}

/// The 7 value bits of a varint byte.
pub open spec fn low7(b: u8) -> int {
    (b % 0x80) as int
}

/// Canonical varint encoding of a 32-bit value: 1 to 5 bytes.
pub open spec fn varint_enc(v: u32) -> Seq<u8> {
    if v < 0x80 {
        seq![v as u8]
    } else if v < 0x4000 {
        seq![(v % 0x80 + 0x80) as u8, (v / 0x80) as u8]
    } else if v < 0x20_0000 {
        seq![
            (v % 0x80 + 0x80) as u8,
            (v / 0x80 % 0x80 + 0x80) as u8,
            (v / 0x4000) as u8,
        ]
    } else if v < 0x1000_0000 {
        seq![
            (v % 0x80 + 0x80) as u8,
            (v / 0x80 % 0x80 + 0x80) as u8,
            (v / 0x4000 % 0x80 + 0x80) as u8,
            (v / 0x20_0000) as u8,
        ]
    } else {
        seq![
            (v % 0x80 + 0x80) as u8,
            (v / 0x80 % 0x80 + 0x80) as u8,
            (v / 0x4000 % 0x80 + 0x80) as u8,
            (v / 0x20_0000 % 0x80 + 0x80) as u8,
            (v / 0x1000_0000) as u8,
        ]
    }
}

/// How many bytes the varint at the front of `s` occupies, if it is complete:
/// the position of the first byte without a continuation bit, within the
/// 5-byte limit.
pub open spec fn varint_len_at(s: Seq<u8>) -> Option<int> {
    if s.len() >= 1 && !has_cont(s[0]) {
        Some(1)
    } else if s.len() >= 2 && has_cont(s[0]) && !has_cont(s[1]) {
        Some(2)
    } else if s.len() >= 3 && has_cont(s[0]) && has_cont(s[1]) && !has_cont(s[2]) {
        Some(3)
    } else if s.len() >= 4 && has_cont(s[0]) && has_cont(s[1]) && has_cont(s[2]) && !has_cont(
        s[3],
    ) {
        Some(4)
    } else if s.len() >= 5 && has_cont(s[0]) && has_cont(s[1]) && has_cont(s[2]) && has_cont(s[3])
        && !has_cont(s[4]) {
        Some(5)
    } else {
        None
    }
}

/// Five continuation bits in a row: the sequence is not a 32-bit varint.
pub open spec fn varint_malformed(s: Seq<u8>) -> bool {
    s.len() >= 5 && has_cont(s[0]) && has_cont(s[1]) && has_cont(s[2]) && has_cont(s[3]) && has_cont(
        s[4],
    )
}

/// Mathematical value of the `n`-byte varint at the front of `s`.
pub open spec fn varint_ival(s: Seq<u8>, n: int) -> int {
    (if n >= 1 {
        low7(s[0])
    } else {
        0
    }) + (if n >= 2 {
        low7(s[1]) * 0x80
    } else {
        0
    }) + (if n >= 3 {
        low7(s[2]) * 0x4000
    } else {
        0
    }) + (if n >= 4 {
        low7(s[3]) * 0x20_0000
    } else {
        0
    }) + (if n >= 5 {
        low7(s[4]) * 0x1000_0000
    } else {
        0
    })
}

/// The decoded 32-bit value: the base-128 sum, truncated to 32 bits.
pub open spec fn varint_val(s: Seq<u8>, n: int) -> u32 {
    (varint_ival(s, n) % 0x1_0000_0000) as u32
}

/// Appends the canonical varint encoding of `v`.
pub fn write_varint_u32(buf: &mut Vec<u8>, v: u32)
    ensures
        final(buf)@ == old(buf)@ + varint_enc(v),
{
    if v < 0x80 {
        buf.push(v as u8);
    } else if v < 0x4000 {
        buf.push((v % 0x80 + 0x80) as u8);
        buf.push((v / 0x80) as u8);
    } else if v < 0x20_0000 {
        buf.push((v % 0x80 + 0x80) as u8);
        buf.push((v / 0x80 % 0x80 + 0x80) as u8);
        buf.push((v / 0x4000) as u8);
    } else if v < 0x1000_0000 {
        buf.push((v % 0x80 + 0x80) as u8);
        buf.push((v / 0x80 % 0x80 + 0x80) as u8);
        buf.push((v / 0x4000 % 0x80 + 0x80) as u8);
        buf.push((v / 0x20_0000) as u8);
    } else {
        buf.push((v % 0x80 + 0x80) as u8);
        buf.push((v / 0x80 % 0x80 + 0x80) as u8);
        buf.push((v / 0x4000 % 0x80 + 0x80) as u8);
        buf.push((v / 0x20_0000 % 0x80 + 0x80) as u8);
        buf.push((v / 0x1000_0000) as u8);
    }
    assert(buf@ =~= old(buf)@ + varint_enc(v));
}

/// Appends the varint encoding of a signed 32-bit value (its two's-complement
/// bit pattern; negative values always take 5 bytes).
pub fn write_varint(buf: &mut Vec<u8>, v: i32)
    ensures
        final(buf)@ == old(buf)@ + varint_enc(v as u32),
{
    write_varint_u32(buf, v as u32);
}

/// Exact encoded length of `v`, computed without writing.
pub fn varint_size(v: i32) -> (r: usize)
    ensures
        r as int == varint_enc(v as u32).len(),
{
    let u = v as u32;
    if u < 0x80 {
        1
    } else if u < 0x4000 {
        2
    } else if u < 0x20_0000 {
        3
    } else if u < 0x1000_0000 {
        4
    } else {
        5
    }
}

/// Reads the varint at `pos`: the decoded value and the bytes consumed.
/// Fails with `Underrun` when the buffer ends before the terminating byte,
/// and with `VarIntTooLong` when a fifth byte still carries a continuation
/// bit.
#[verifier::rlimit(60)]
pub fn read_varint_u32(buf: &[u8], pos: usize) -> (r: Result<(u32, usize), ReadError>)
    requires
        pos <= buf@.len(),
    ensures
        ({
            let s = buf@.skip(pos as int);
            match r {
                Ok((v, n)) => {
                    &&& varint_len_at(s) == Some(n as int)
                    &&& v == varint_val(s, n as int)
                    &&& 1 <= n <= 5
                    &&& pos + n <= buf@.len()
                },
                Err(ReadError::VarIntTooLong) => varint_malformed(s),
                Err(ReadError::Underrun) => varint_len_at(s) is None && !varint_malformed(s),
                Err(_) => false,
            }
        }),
{
    let ghost s = buf@.skip(pos as int);
    if pos >= buf.len() {
        return Err(ReadError::Underrun);
    }
    let b0 = buf[pos];
    assert(b0 == s[0]);
    if b0 < 0x80 {
        return Ok((b0 as u32, 1));
    }
    if pos + 1 >= buf.len() {
        return Err(ReadError::Underrun);
    }
    let b1 = buf[pos + 1];
    assert(b1 == s[1]);
    if b1 < 0x80 {
        let v: u32 = (b0 % 0x80) as u32 + (b1 as u32) * 0x80;
        return Ok((v, 2));
    }
    if pos + 2 >= buf.len() {
        return Err(ReadError::Underrun);
    }
    let b2 = buf[pos + 2];
    assert(b2 == s[2]);
    if b2 < 0x80 {
        let v: u32 = (b0 % 0x80) as u32 + ((b1 % 0x80) as u32) * 0x80 + (b2 as u32) * 0x4000;
        return Ok((v, 3));
    }
    if pos + 3 >= buf.len() {
        return Err(ReadError::Underrun);
    }
    let b3 = buf[pos + 3];
    assert(b3 == s[3]);
    if b3 < 0x80 {
        let v: u32 = (b0 % 0x80) as u32 + ((b1 % 0x80) as u32) * 0x80 + ((b2 % 0x80) as u32)
            * 0x4000 + (b3 as u32) * 0x20_0000;
        return Ok((v, 4));
    }
    if pos + 4 >= buf.len() {
        return Err(ReadError::Underrun);
    }
    let b4 = buf[pos + 4];
    assert(b4 == s[4]);
    if b4 < 0x80 {
        let wide: u64 = (b0 % 0x80) as u64 + ((b1 % 0x80) as u64) * 0x80 + ((b2 % 0x80) as u64)
            * 0x4000 + ((b3 % 0x80) as u64) * 0x20_0000 + (b4 as u64) * 0x1000_0000;
        let v: u32 = (wide % 0x1_0000_0000) as u32;
        return Ok((v, 5));
    }
    Err(ReadError::VarIntTooLong)
}

/// Reads the varint at `pos` as a signed 32-bit value.
pub fn read_varint(buf: &[u8], pos: usize) -> (r: Result<(i32, usize), ReadError>)
    requires
        pos <= buf@.len(),
    ensures
        ({
            let s = buf@.skip(pos as int);
            match r {
                Ok((v, n)) => {
                    &&& varint_len_at(s) == Some(n as int)
                    &&& v == varint_val(s, n as int) as i32
                    &&& 1 <= n <= 5
                    &&& pos + n <= buf@.len()
                },
                Err(ReadError::VarIntTooLong) => varint_malformed(s),
                Err(ReadError::Underrun) => varint_len_at(s) is None && !varint_malformed(s),
                Err(_) => false,
            }
        }),
{
    match read_varint_u32(buf, pos) {
        Ok((v, n)) => Ok((v as i32, n)),
        Err(e) => Err(e),
    }
}

/// Law: the canonical varint encoding round-trips — at the front of any
/// buffer it parses back, with its own length, to the value it encodes.
pub proof fn lemma_varint_enc_parses(v: u32, rest: Seq<u8>)
    ensures
        varint_len_at(varint_enc(v) + rest) == Some(varint_enc(v).len() as int),
        varint_val(varint_enc(v) + rest, varint_enc(v).len() as int) == v,
        !varint_malformed(varint_enc(v) + rest),
        1 <= varint_enc(v).len() <= 5,
{
    let s = varint_enc(v) + rest;
    if v < 0x80 {
        assert(s[0] == v as u8);
    } else if v < 0x4000 {
        assert(s[0] == (v % 0x80 + 0x80) as u8 && s[1] == (v / 0x80) as u8);
        assert(varint_ival(s, 2) == v);
    } else if v < 0x20_0000 {
        assert(s[0] == (v % 0x80 + 0x80) as u8 && s[1] == (v / 0x80 % 0x80 + 0x80) as u8 && s[2]
            == (v / 0x4000) as u8);
        assert(varint_ival(s, 3) == v % 0x80 + (v / 0x80 % 0x80) * 0x80 + (v / 0x4000) * 0x4000);
        assert(v % 0x4000 == v % 0x80 + (v / 0x80 % 0x80) * 0x80) by (nonlinear_arith);
        assert(varint_ival(s, 3) == v);
    } else if v < 0x1000_0000 {
        assert(varint_ival(s, 4) == v % 0x80 + (v / 0x80 % 0x80) * 0x80 + (v / 0x4000 % 0x80)
            * 0x4000 + (v / 0x20_0000) * 0x20_0000);
        assert(v % 0x4000 == v % 0x80 + (v / 0x80 % 0x80) * 0x80) by (nonlinear_arith);
        assert(v % 0x20_0000 == v % 0x4000 + (v / 0x4000 % 0x80) * 0x4000) by (nonlinear_arith);
        assert(varint_ival(s, 4) == v);
    } else {
        assert(varint_ival(s, 5) == v % 0x80 + (v / 0x80 % 0x80) * 0x80 + (v / 0x4000 % 0x80)
            * 0x4000 + (v / 0x20_0000 % 0x80) * 0x20_0000 + (v / 0x1000_0000) * 0x1000_0000);
        assert(v % 0x4000 == v % 0x80 + (v / 0x80 % 0x80) * 0x80) by (nonlinear_arith);
        assert(v % 0x20_0000 == v % 0x4000 + (v / 0x4000 % 0x80) * 0x4000) by (nonlinear_arith);
        assert(v % 0x1000_0000 == v % 0x20_0000 + (v / 0x20_0000 % 0x80) * 0x20_0000)
            by (nonlinear_arith);
        assert(v == v % 0x1000_0000 + (v / 0x1000_0000) * 0x1000_0000) by (nonlinear_arith);
        assert(varint_ival(s, 5) == v);
        assert(v / 0x1000_0000 < 0x80) by (nonlinear_arith)
            requires
                v < 0x1_0000_0000,
        ;
    }
}

/// Law: a strict prefix of a varint encoding neither parses nor counts as
/// malformed — a reader must wait for more bytes.
pub proof fn lemma_varint_enc_prefix(v: u32, k: int)
    requires
        0 <= k < varint_enc(v).len(),
    ensures
        varint_len_at(varint_enc(v).take(k)) is None,
        !varint_malformed(varint_enc(v).take(k)),
{
    lemma_varint_enc_parses(v, Seq::<u8>::empty());
}

// ----------------------------------------------------------------------
// Fixed-width big-endian integers and booleans.
// ----------------------------------------------------------------------

/// Big-endian encoding of a 16-bit value: 2 bytes.
pub open spec fn be16_enc(v: u16) -> Seq<u8> {
    seq![(v / 0x100) as u8, (v % 0x100) as u8]
}

/// Big-endian encoding of a 32-bit value: 4 bytes.
pub open spec fn be32_enc(v: u32) -> Seq<u8> {
    seq![
        (v / 0x100_0000) as u8,
        (v / 0x1_0000 % 0x100) as u8,
        (v / 0x100 % 0x100) as u8,
        (v % 0x100) as u8,
    ]
}

/// Big-endian encoding of a 64-bit value: 8 bytes.
pub open spec fn be64_enc(v: u64) -> Seq<u8> {
    seq![
        (v / 0x100_0000_0000_0000) as u8,
        (v / 0x1_0000_0000_0000 % 0x100) as u8,
        (v / 0x100_0000_0000 % 0x100) as u8,
        (v / 0x1_0000_0000 % 0x100) as u8,
        (v / 0x100_0000 % 0x100) as u8,
        (v / 0x1_0000 % 0x100) as u8,
        (v / 0x100 % 0x100) as u8,
        (v % 0x100) as u8,
    ]
}

/// One-byte encoding of a boolean: 1 for true, 0 for false.
pub open spec fn bool_enc(b: bool) -> Seq<u8> {
    seq![if b { 1u8 } else { 0u8 }]
}

/// Appends one byte.
pub fn write_u8(buf: &mut Vec<u8>, v: u8)
    ensures
        final(buf)@ == old(buf)@ + seq![v],
{
    buf.push(v);
    assert(buf@ =~= old(buf)@ + seq![v]);
}

/// Reads one byte.
pub fn read_u8(buf: &[u8], pos: usize) -> (r: Result<(u8, usize), ReadError>)
    requires
        pos <= buf@.len(),
    ensures
        match r {
            Ok((v, n)) => n == 1 && pos + 1 <= buf@.len() && v == buf@[pos as int],
            Err(e) => e == ReadError::Underrun && pos == buf@.len(),
        },
{
    if pos >= buf.len() {
        return Err(ReadError::Underrun);
    }
    Ok((buf[pos], 1))
}

/// Appends a boolean as one byte.
pub fn write_bool(buf: &mut Vec<u8>, v: bool)
    ensures
        final(buf)@ == old(buf)@ + bool_enc(v),
{
    buf.push(if v {
        1
    } else {
        0
    });
    assert(buf@ =~= old(buf)@ + bool_enc(v));
}

/// Reads a boolean: any nonzero byte is true.
pub fn read_bool(buf: &[u8], pos: usize) -> (r: Result<(bool, usize), ReadError>)
    requires
        pos <= buf@.len(),
    ensures
        match r {
            Ok((v, n)) => n == 1 && pos + 1 <= buf@.len() && v == (buf@[pos as int] != 0),
            Err(e) => e == ReadError::Underrun && pos == buf@.len(),
        },
{
    if pos >= buf.len() {
        return Err(ReadError::Underrun);
    }
    Ok((buf[pos] != 0, 1))
}

/// Appends a 16-bit value, big-endian.
pub fn write_u16(buf: &mut Vec<u8>, v: u16)
    ensures
        final(buf)@ == old(buf)@ + be16_enc(v),
{
    buf.push((v / 0x100) as u8);
    buf.push((v % 0x100) as u8);
    assert(buf@ =~= old(buf)@ + be16_enc(v));
}

/// Value of the 2 big-endian bytes at the front of `s`.
pub open spec fn be16_val(s: Seq<u8>) -> int {
    s[0] * 0x100 + s[1]
}

/// Law: the 16-bit big-endian encoding round-trips.
pub proof fn lemma_be16_round_trip(v: u16, rest: Seq<u8>)
    ensures
        be16_val(be16_enc(v) + rest) == v,
{
}

/// Reads a big-endian 16-bit value.
pub fn read_u16(buf: &[u8], pos: usize) -> (r: Result<(u16, usize), ReadError>)
    requires
        pos <= buf@.len(),
    ensures
        match r {
            Ok((v, n)) => n == 2 && pos + 2 <= buf@.len() && v == be16_val(
                buf@.subrange(pos as int, pos + 2),
            ),
            Err(e) => e == ReadError::Underrun && pos + 2 > buf@.len(),
        },
{
    if buf.len() < 2 || pos > buf.len() - 2 {
        return Err(ReadError::Underrun);
    }
    let v: u16 = (buf[pos] as u16) * 0x100 + (buf[pos + 1] as u16);
    proof {
        let sub = buf@.subrange(pos as int, pos + 2);
        assert(sub[0] == buf@[pos as int] && sub[1] == buf@[pos + 1]);
    }
    Ok((v, 2))
}

/// Appends a 32-bit value, big-endian.
pub fn write_u32(buf: &mut Vec<u8>, v: u32)
    ensures
        final(buf)@ == old(buf)@ + be32_enc(v),
{
    buf.push((v / 0x100_0000) as u8);
    buf.push((v / 0x1_0000 % 0x100) as u8);
    buf.push((v / 0x100 % 0x100) as u8);
    buf.push((v % 0x100) as u8);
    assert(buf@ =~= old(buf)@ + be32_enc(v));
}

/// Appends a signed 32-bit value, big-endian.
pub fn write_i32(buf: &mut Vec<u8>, v: i32)
    ensures
        final(buf)@ == old(buf)@ + be32_enc(v as u32),
{
    write_u32(buf, v as u32);
}

/// Value of the 4 big-endian bytes at the front of `s`.
pub open spec fn be32_val(s: Seq<u8>) -> int {
    s[0] * 0x100_0000 + s[1] * 0x1_0000 + s[2] * 0x100 + s[3]
}

/// Law: the 32-bit big-endian encoding round-trips.
pub proof fn lemma_be32_round_trip(v: u32, rest: Seq<u8>)
    ensures
        be32_val(be32_enc(v) + rest) == v,
{
    let s = be32_enc(v) + rest;
    assert(s[0] == (v / 0x100_0000) as u8 && s[1] == (v / 0x1_0000 % 0x100) as u8 && s[2] == (v
        / 0x100 % 0x100) as u8 && s[3] == (v % 0x100) as u8);
    assert(v % 0x1_0000 == v % 0x100 + (v / 0x100 % 0x100) * 0x100) by (nonlinear_arith);
    assert(v % 0x100_0000 == v % 0x1_0000 + (v / 0x1_0000 % 0x100) * 0x1_0000)
        by (nonlinear_arith);
    assert(v == v % 0x100_0000 + (v / 0x100_0000) * 0x100_0000) by (nonlinear_arith);
}

/// Reads a big-endian signed 32-bit value.
pub fn read_i32(buf: &[u8], pos: usize) -> (r: Result<(i32, usize), ReadError>)
    requires
        pos <= buf@.len(),
    ensures
        match r {
            Ok((v, n)) => n == 4 && pos + 4 <= buf@.len() && v as u32 == be32_val(
                buf@.subrange(pos as int, pos + 4),
            ) as u32,
            Err(e) => e == ReadError::Underrun && pos + 4 > buf@.len(),
        },
{
    if buf.len() < 4 || pos > buf.len() - 4 {
        return Err(ReadError::Underrun);
    }
    let v: u32 = (buf[pos] as u32) * 0x100_0000 + (buf[pos + 1] as u32) * 0x1_0000 + (buf[pos
        + 2] as u32) * 0x100 + (buf[pos + 3] as u32);
    proof {
        let sub = buf@.subrange(pos as int, pos + 4);
        assert(sub[0] == buf@[pos as int] && sub[1] == buf@[pos + 1] && sub[2] == buf@[pos + 2]
            && sub[3] == buf@[pos + 3]);
    }
    let w: i32 = v as i32;
    proof {
        assert(w as u32 == v) by (bit_vector)
            requires
                w == v as i32,
        ;
    }
    Ok((w, 4))
}

/// Appends a 64-bit value, big-endian.
pub fn write_u64(buf: &mut Vec<u8>, v: u64)
    ensures
        final(buf)@ == old(buf)@ + be64_enc(v),
{
    buf.push((v / 0x100_0000_0000_0000) as u8);
    buf.push((v / 0x1_0000_0000_0000 % 0x100) as u8);
    buf.push((v / 0x100_0000_0000 % 0x100) as u8);
    buf.push((v / 0x1_0000_0000 % 0x100) as u8);
    buf.push((v / 0x100_0000 % 0x100) as u8);
    buf.push((v / 0x1_0000 % 0x100) as u8);
    buf.push((v / 0x100 % 0x100) as u8);
    buf.push((v % 0x100) as u8);
    assert(buf@ =~= old(buf)@ + be64_enc(v));
}

/// Appends a signed 64-bit value, big-endian.
pub fn write_i64(buf: &mut Vec<u8>, v: i64)
    ensures
        final(buf)@ == old(buf)@ + be64_enc(v as u64),
{
    write_u64(buf, v as u64);
}

/// Value of the 8 big-endian bytes at the front of `s`.
pub open spec fn be64_val(s: Seq<u8>) -> int {
    s[0] * 0x100_0000_0000_0000 + s[1] * 0x1_0000_0000_0000 + s[2] * 0x100_0000_0000 + s[3]
        * 0x1_0000_0000 + s[4] * 0x100_0000 + s[5] * 0x1_0000 + s[6] * 0x100 + s[7]
}

/// Law: the 64-bit big-endian encoding round-trips.
pub proof fn lemma_be64_round_trip(v: u64, rest: Seq<u8>)
    ensures
        be64_val(be64_enc(v) + rest) == v,
{
    let s = be64_enc(v) + rest;
    assert(s[0] == (v / 0x100_0000_0000_0000) as u8 && s[1] == (v / 0x1_0000_0000_0000
        % 0x100) as u8 && s[2] == (v / 0x100_0000_0000 % 0x100) as u8 && s[3] == (v / 0x1_0000_0000
        % 0x100) as u8 && s[4] == (v / 0x100_0000 % 0x100) as u8 && s[5] == (v / 0x1_0000
        % 0x100) as u8 && s[6] == (v / 0x100 % 0x100) as u8 && s[7] == (v % 0x100) as u8);
    assert(v % 0x1_0000 == v % 0x100 + (v / 0x100 % 0x100) * 0x100) by (nonlinear_arith);
    assert(v % 0x100_0000 == v % 0x1_0000 + (v / 0x1_0000 % 0x100) * 0x1_0000)
        by (nonlinear_arith);
    assert(v % 0x1_0000_0000 == v % 0x100_0000 + (v / 0x100_0000 % 0x100) * 0x100_0000)
        by (nonlinear_arith);
    assert(v % 0x100_0000_0000 == v % 0x1_0000_0000 + (v / 0x1_0000_0000 % 0x100) * 0x1_0000_0000)
        by (nonlinear_arith);
    assert(v % 0x1_0000_0000_0000 == v % 0x100_0000_0000 + (v / 0x100_0000_0000 % 0x100)
        * 0x100_0000_0000) by (nonlinear_arith);
    assert(v % 0x100_0000_0000_0000 == v % 0x1_0000_0000_0000 + (v / 0x1_0000_0000_0000 % 0x100)
        * 0x1_0000_0000_0000) by (nonlinear_arith);
    assert(v == v % 0x100_0000_0000_0000 + (v / 0x100_0000_0000_0000) * 0x100_0000_0000_0000)
        by (nonlinear_arith);
}

/// Reads a big-endian signed 64-bit value.
pub fn read_i64(buf: &[u8], pos: usize) -> (r: Result<(i64, usize), ReadError>)
    requires
        pos <= buf@.len(),
    ensures
        match r {
            Ok((v, n)) => n == 8 && pos + 8 <= buf@.len() && v as u64 == be64_val(
                buf@.subrange(pos as int, pos + 8),
            ) as u64,
            Err(e) => e == ReadError::Underrun && pos + 8 > buf@.len(),
        },
{
    if buf.len() < 8 || pos > buf.len() - 8 {
        return Err(ReadError::Underrun);
    }
    let v: u64 = (buf[pos] as u64) * 0x100_0000_0000_0000 + (buf[pos + 1] as u64)
        * 0x1_0000_0000_0000 + (buf[pos + 2] as u64) * 0x100_0000_0000 + (buf[pos + 3] as u64)
        * 0x1_0000_0000 + (buf[pos + 4] as u64) * 0x100_0000 + (buf[pos + 5] as u64) * 0x1_0000 + (
    buf[pos + 6] as u64) * 0x100 + (buf[pos + 7] as u64);
    proof {
        let sub = buf@.subrange(pos as int, pos + 8);
        assert(sub[0] == buf@[pos as int] && sub[1] == buf@[pos + 1] && sub[2] == buf@[pos + 2]
            && sub[3] == buf@[pos + 3] && sub[4] == buf@[pos + 4] && sub[5] == buf@[pos + 5]
            && sub[6] == buf@[pos + 6] && sub[7] == buf@[pos + 7]);
    }
    let w: i64 = v as i64;
    proof {
        assert(w as u64 == v) by (bit_vector)
            requires
                w == v as i64,
        ;
    }
    Ok((w, 8))
}


// ----------------------------------------------------------------------
// Length-prefixed strings, raw byte runs, length-prefixed byte sequences.
// ----------------------------------------------------------------------

/// Wire form of a string: a varint prefix holding the UTF-8 byte count (not
/// the character count), then the raw UTF-8 bytes.
pub open spec fn string_enc(s: Seq<char>) -> Seq<u8> {
    varint_enc(encode_utf8(s).len() as u32) + encode_utf8(s)
}

/// Relies on `String::from_utf8`: it succeeds exactly on valid UTF-8 and
/// returns the string whose UTF-8 encoding is the input, byte for byte.
#[verifier::external_body]
fn string_from_utf8(v: Vec<u8>) -> (r: Option<String>)
    ensures
        r matches Some(s) ==> encode_utf8(s@) == v@,
        r is Some <==> valid_utf8(v@),
{
    String::from_utf8(v).ok()
}

/// Exact encoded length of `v`, computed without writing.
pub fn varint_size_u32(v: u32) -> (r: usize)
    ensures
        r as int == varint_enc(v).len(),
{
    if v < 0x80 {
        1
    } else if v < 0x4000 {
        2
    } else if v < 0x20_0000 {
        3
    } else if v < 0x1000_0000 {
        4
    } else {
        5
    }
}

/// Appends the length-prefixed encoding of `s`, unless its UTF-8 byte length
/// exceeds the schema-declared maximum `max`; then nothing is written.
pub fn write_string(buf: &mut Vec<u8>, s: &str, max: u32) -> (r: Result<(), WriteError>)
    ensures
        r is Ok <==> encode_utf8(s@).len() <= max,
        r is Ok ==> final(buf)@ == old(buf)@ + string_enc(s@),
        r is Err ==> final(buf)@ == old(buf)@ && r == Err::<(), WriteError>(
            WriteError::StringTooLong,
        ),
{
    let bytes = s.as_bytes();
    if bytes.len() > max as usize {
        return Err(WriteError::StringTooLong);
    }
    write_varint_u32(buf, bytes.len() as u32);
    buf.extend_from_slice(bytes);
    assert(buf@ =~= old(buf)@ + string_enc(s@));
    Ok(())
}

/// Exact encoded length of the string: prefix plus UTF-8 bytes, computed
/// without writing.
pub fn string_size(s: &str) -> (r: usize)
    requires
        encode_utf8(s@).len() + 5 <= usize::MAX,
        encode_utf8(s@).len() <= 0xffff_ffff,
    ensures
        r as int == string_enc(s@).len(),
{
    let len = s.len();
    varint_size_u32(len as u32) + len
}

/// Reads a length-prefixed string at `pos`: the decoded string and the bytes
/// consumed. Fails when the prefix is malformed, exceeds the declared
/// maximum `max`, promises more bytes than remain, or covers invalid UTF-8.
pub fn read_string(buf: &[u8], pos: usize, max: u32) -> (r: Result<(String, usize), ReadError>)
    requires
        pos <= buf@.len(),
    ensures
        ({
            let s = buf@.skip(pos as int);
            let pl = varint_len_at(s)->Some_0;
            let bl = varint_val(s, pl) as int;
            match r {
                Ok((st, n)) => {
                    &&& varint_len_at(s) is Some
                    &&& bl <= max
                    &&& n == pl + bl
                    &&& pos + n <= buf@.len()
                    &&& encode_utf8(st@) == s.subrange(pl, pl + bl)
                },
                Err(ReadError::VarIntTooLong) => varint_malformed(s),
                Err(ReadError::Underrun) => (varint_len_at(s) is None && !varint_malformed(s)) || (
                varint_len_at(s) is Some && bl <= max && pos + pl + bl > buf@.len()),
                Err(ReadError::StringTooLong) => varint_len_at(s) is Some && bl > max,
                Err(ReadError::InvalidUtf8) => varint_len_at(s) is Some && bl <= max && pos + pl
                    + bl <= buf@.len() && !valid_utf8(s.subrange(pl, pl + bl)),
                Err(_) => false,
            }
        }),
{
    let ghost s = buf@.skip(pos as int);
    let (bl, pl) = match read_varint_u32(buf, pos) {
        Ok(v) => v,
        Err(e) => {
            return Err(e);
        },
    };
    if bl > max {
        return Err(ReadError::StringTooLong);
    }
    let bl_us = bl as usize;
    if buf.len() - (pos + pl) < bl_us {
        return Err(ReadError::Underrun);
    }
    let bytes = slice_to_vec(slice_subrange(buf, pos + pl, pos + pl + bl_us));
    proof {
        assert(bytes@ =~= s.subrange(pl as int, pl + bl));
    }
    match string_from_utf8(bytes) {
        Some(st) => Ok((st, pl + bl_us)),
        None => Err(ReadError::InvalidUtf8),
    }
}

/// Law: UTF-8 encoding is injective — two strings with the same wire bytes
/// are the same string. With `read_string`'s and `write_string`'s contracts
/// this gives the string round trip.
pub proof fn lemma_utf8_injective(a: Seq<char>, b: Seq<char>)
    requires
        encode_utf8(a) == encode_utf8(b),
    ensures
        a == b,
{
    vstd::utf8::encode_utf8_decode_utf8(a);
    vstd::utf8::encode_utf8_decode_utf8(b);
}

/// Law: a string encoding parses back from the front of any buffer — the
/// prefix holds the byte count and the bytes after it are the UTF-8 bytes.
pub proof fn lemma_string_enc_parses(s: Seq<char>, rest: Seq<u8>)
    requires
        encode_utf8(s).len() <= 0xffff_ffff,
    ensures
        ({
            let t = string_enc(s) + rest;
            let pl = varint_len_at(t)->Some_0;
            &&& varint_len_at(t) is Some
            &&& varint_val(t, pl) == encode_utf8(s).len()
            &&& t.subrange(pl, pl + encode_utf8(s).len()) == encode_utf8(s)
        }),
{
    let bl = encode_utf8(s).len() as u32;
    lemma_varint_enc_parses(bl, encode_utf8(s) + rest);
    let t = string_enc(s) + rest;
    assert(t =~= varint_enc(bl) + (encode_utf8(s) + rest));
    let pl = varint_len_at(t)->Some_0;
    assert(t.subrange(pl, pl + encode_utf8(s).len()) =~= encode_utf8(s));
}

/// Appends a raw byte run: no length prefix — an enclosing structure already
/// declares the count.
pub fn write_bytes(buf: &mut Vec<u8>, data: &[u8])
    ensures
        final(buf)@ == old(buf)@ + data@,
{
    buf.extend_from_slice(data);
}

/// Reads a raw run of exactly `n` bytes; the count is the caller's seed, not
/// part of the encoding.
pub fn read_bytes(buf: &[u8], pos: usize, n: usize) -> (r: Result<(Vec<u8>, usize), ReadError>)
    requires
        pos <= buf@.len(),
    ensures
        match r {
            Ok((v, m)) => m == n && pos + n <= buf@.len() && v@ == buf@.subrange(
                pos as int,
                pos + n,
            ),
            Err(e) => e == ReadError::Underrun && pos + n > buf@.len(),
        },
{
    if buf.len() - pos < n {
        return Err(ReadError::Underrun);
    }
    Ok((slice_to_vec(slice_subrange(buf, pos, pos + n)), n))
}

/// Wire form of a length-prefixed byte sequence: a varint element count,
/// then the elements.
pub open spec fn byte_vec_enc(s: Seq<u8>) -> Seq<u8> {
    varint_enc(s.len() as u32) + s
}

/// Appends the length-prefixed encoding of `data`.
pub fn write_byte_vec(buf: &mut Vec<u8>, data: &[u8])
    requires
        data@.len() <= 0xffff_ffff,
    ensures
        final(buf)@ == old(buf)@ + byte_vec_enc(data@),
{
    write_varint_u32(buf, data.len() as u32);
    buf.extend_from_slice(data);
    assert(buf@ =~= old(buf)@ + byte_vec_enc(data@));
}

/// Reads a length-prefixed byte sequence at `pos`: the bytes and the total
/// bytes consumed.
pub fn read_byte_vec(buf: &[u8], pos: usize) -> (r: Result<(Vec<u8>, usize), ReadError>)
    requires
        pos <= buf@.len(),
    ensures
        ({
            let s = buf@.skip(pos as int);
            let pl = varint_len_at(s)->Some_0;
            let bl = varint_val(s, pl) as int;
            match r {
                Ok((v, n)) => {
                    &&& varint_len_at(s) is Some
                    &&& n == pl + bl
                    &&& pos + n <= buf@.len()
                    &&& v@ == s.subrange(pl, pl + bl)
                },
                Err(ReadError::VarIntTooLong) => varint_malformed(s),
                Err(ReadError::Underrun) => (varint_len_at(s) is None && !varint_malformed(s)) || (
                varint_len_at(s) is Some && pos + pl + bl > buf@.len()),
                Err(_) => false,
            }
        }),
{
    let ghost s = buf@.skip(pos as int);
    let (bl, pl) = match read_varint_u32(buf, pos) {
        Ok(v) => v,
        Err(e) => {
            return Err(e);
        },
    };
    let bl_us = bl as usize;
    if buf.len() - (pos + pl) < bl_us {
        return Err(ReadError::Underrun);
    }
    let bytes = slice_to_vec(slice_subrange(buf, pos + pl, pos + pl + bl_us));
    proof {
        assert(bytes@ =~= s.subrange(pl as int, pl + bl));
    }
    Ok((bytes, pl + bl_us))
}

} // verus!

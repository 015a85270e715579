//! Framing: one wire frame is a varint `length`, then a varint `packet_id`,
//! then `length - size_of(packet_id)` payload bytes. The `length` covers the
//! packet id and the payload, never itself. Frames exist only inside the
//! read and write buffers.

use vstd::prelude::*;
use vstd::slice::{slice_subrange, slice_to_vec};
use crate::codec::{
    read_varint, varint_enc, varint_len_at, varint_malformed, varint_val, write_varint_u32,
    ReadError,
};

verus! {

/// One decoded frame: the packet id and the raw payload bytes. The payload
/// is decoded later, against the dispatch table and the negotiated version.
#[derive(Debug)]
pub struct WireFrame {
    pub packet_id: i32,
    pub payload: Vec<u8>,
}

/// Wire form of a frame for packet `id` with payload `payload`.
pub open spec fn frame_enc(id: i32, payload: Seq<u8>) -> Seq<u8> {
    let body = varint_enc(id as u32) + payload;
    varint_enc(body.len() as u32) + body
}

/// Byte count of the frame's length prefix at the front of `s`.
pub open spec fn frame_header_len(s: Seq<u8>) -> int {
    varint_len_at(s)->Some_0
}

/// Value of the frame's length prefix: packet id bytes plus payload bytes.
pub open spec fn frame_body_len(s: Seq<u8>) -> int {
    varint_val(s, frame_header_len(s)) as int
}

/// The length prefix is complete and holds a value some frame can have.
pub open spec fn frame_len_ok(s: Seq<u8>) -> bool {
    &&& varint_len_at(s) is Some
    &&& 1 <= frame_body_len(s) <= 0x7fffffff
}

/// Total bytes of the frame at the front of `s`: prefix plus body.
pub open spec fn frame_total_len(s: Seq<u8>) -> int {
    frame_header_len(s) + frame_body_len(s)
}

/// A complete frame sits at the front of `s`.
pub open spec fn frame_ready(s: Seq<u8>) -> bool {
    frame_len_ok(s) && s.len() >= frame_total_len(s)
}

/// The frame's body: packet id bytes, then payload.
pub open spec fn frame_body(s: Seq<u8>) -> Seq<u8> {
    s.subrange(frame_header_len(s), frame_total_len(s))
}

/// Packet id of the complete frame at the front of `s`.
pub open spec fn frame_id(s: Seq<u8>) -> i32 {
    varint_val(frame_body(s), varint_len_at(frame_body(s))->Some_0) as i32
}

/// Payload of the complete frame at the front of `s`.
pub open spec fn frame_payload(s: Seq<u8>) -> Seq<u8> {
    frame_body(s).skip(varint_len_at(frame_body(s))->Some_0)
}

/// The front of `s` can never become a frame, however many bytes follow:
/// the length prefix overflows, its value is impossible, or a complete body
/// starts with a packet id that is not a varint.
pub open spec fn frame_bad(s: Seq<u8>) -> bool {
    ||| varint_malformed(s)
    ||| (varint_len_at(s) is Some && !(1 <= frame_body_len(s) <= 0x7fffffff))
    ||| (frame_ready(s) && varint_len_at(frame_body(s)) is None)
}

/// Appends the frame for packet `id` with payload `payload` to the output
/// buffer.
pub fn write_frame(buf: &mut Vec<u8>, id: i32, payload: &[u8])
    requires
        payload@.len() + 5 <= 0x7fffffff,
    ensures
        final(buf)@ == old(buf)@ + frame_enc(id, payload@),
{
    let id_len = crate::codec::varint_size(id);
    write_varint_u32(buf, (id_len + payload.len()) as u32);
    crate::codec::write_varint(buf, id);
    buf.extend_from_slice(payload);
    assert(buf@ =~= old(buf)@ + frame_enc(id, payload@));
}

/// Extracts the frame at the front of `input`, if one is complete, consuming
/// its bytes. An incomplete frame stays buffered (`Ok(None)`) until more
/// bytes arrive; a frame that can never complete is an error and consumes
/// nothing.
pub fn next_frame(input: &mut Vec<u8>) -> (r: Result<Option<WireFrame>, ReadError>)
    ensures
        ({
            let s = old(input)@;
            match r {
                Ok(Some(f)) => {
                    &&& frame_ready(s)
                    &&& !frame_bad(s)
                    &&& f.packet_id == frame_id(s)
                    &&& f.payload@ == frame_payload(s)
                    &&& final(input)@ == s.skip(frame_total_len(s))
                },
                Ok(None) => !frame_ready(s) && !frame_bad(s) && final(input)@ == s,
                Err(e) => {
                    &&& frame_bad(s)
                    &&& final(input)@ == s
                    &&& (e == ReadError::VarIntTooLong || e == ReadError::BadLength)
                    &&& (e == ReadError::BadLength ==> varint_len_at(s) is Some && !(1
                        <= frame_body_len(s) <= 0x7fffffff))
                },
            }
        }),
{
    let ghost s = input@;
    let (lv, hl) = match read_varint(input.as_slice(), 0) {
        Ok(v) => v,
        Err(ReadError::VarIntTooLong) => {
            return Err(ReadError::VarIntTooLong);
        },
        Err(_) => {
            return Ok(None);
        },
    };
    let ghost uv = varint_val(s, hl as int);
    proof {
        assert(lv >= 1 <==> 1 <= uv <= 0x7fffffff) by (bit_vector)
            requires
                lv == uv as i32,
        ;
    }
    if lv < 1 {
        return Err(ReadError::BadLength);
    }
    let bl = lv as usize;
    proof {
        assert(bl == uv) by (bit_vector)
            requires
                lv == uv as i32 && bl == lv as usize && 1 <= uv <= 0x7fffffff,
        ;
    }
    if input.len() - hl < bl {
        return Ok(None);
    }
    let total = hl + bl;
    let body = slice_subrange(input.as_slice(), hl, total);
    assert(body@ =~= frame_body(s));
    let (idv, idn) = match read_varint(body, 0) {
        Ok(v) => v,
        Err(_) => {
            return Err(ReadError::VarIntTooLong);
        },
    };
    let payload = slice_to_vec(slice_subrange(body, idn, bl));
    assert(payload@ =~= frame_payload(s));
    let rest = input.split_off(total);
    *input = rest;
    Ok(Some(WireFrame { packet_id: idv, payload }))
}

/// Law: a written frame parses back exactly — same packet id, same payload —
/// and consumes exactly its own bytes, whatever follows it.
pub proof fn lemma_frame_enc_parses(id: i32, payload: Seq<u8>, rest: Seq<u8>)
    requires
        payload.len() + 5 <= 0x7fffffff,
    ensures
        ({
            let t = frame_enc(id, payload) + rest;
            &&& frame_ready(t)
            &&& !frame_bad(t)
            &&& frame_id(t) == id
            &&& frame_payload(t) == payload
            &&& frame_total_len(t) == frame_enc(id, payload).len()
            &&& t.skip(frame_total_len(t)) == rest
        }),
{
    let idb = varint_enc(id as u32);
    let body = idb + payload;
    let blv = body.len() as u32;
    let t = frame_enc(id, payload) + rest;
    crate::codec::lemma_varint_enc_parses(blv, body + rest);
    assert(t =~= varint_enc(blv) + (body + rest));
    let hl = varint_enc(blv).len() as int;
    assert(varint_len_at(t) == Some(hl));
    assert(frame_body_len(t) == body.len());
    assert(frame_body(t) =~= body);
    crate::codec::lemma_varint_enc_parses(id as u32, payload);
    assert(body =~= idb + payload);
    assert(varint_len_at(body) == Some(idb.len() as int));
    assert(frame_id(t) == varint_val(body, idb.len() as int) as i32);
    assert(id as u32 as i32 == id) by (bit_vector);
    assert(frame_payload(t) =~= payload);
    assert(t.skip(frame_total_len(t)) =~= rest);
}

/// Law: a strict prefix of a frame is neither ready nor hopeless — the
/// reader keeps it buffered and dispatches nothing.
pub proof fn lemma_frame_enc_prefix(id: i32, payload: Seq<u8>, k: int)
    requires
        payload.len() + 5 <= 0x7fffffff,
        0 <= k < frame_enc(id, payload).len(),
    ensures
        ({
            let p = frame_enc(id, payload).take(k);
            !frame_ready(p) && !frame_bad(p)
        }),
{
    let idb = varint_enc(id as u32);
    let body = idb + payload;
    let blv = body.len() as u32;
    let hl = varint_enc(blv).len() as int;
    let p = frame_enc(id, payload).take(k);
    crate::codec::lemma_varint_enc_parses(blv, body);
    assert(frame_enc(id, payload) =~= varint_enc(blv) + body);
    if k < hl {
        assert(p =~= varint_enc(blv).take(k));
        crate::codec::lemma_varint_enc_prefix(blv, k);
    } else {
        assert(p =~= varint_enc(blv) + body.take(k - hl));
        crate::codec::lemma_varint_enc_parses(blv, body.take(k - hl));
        assert(varint_len_at(p) == Some(hl));
        assert(frame_body_len(p) == body.len());
        assert(p.len() < frame_total_len(p));
        assert(!varint_malformed(p));
    }
}

} // verus!

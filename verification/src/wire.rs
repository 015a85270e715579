//! The read / write / size contract of the wire codec, with the seeded
//! variants for forms whose shape depends on context the type itself cannot
//! carry (a declared maximum, an externally supplied byte count).

use vstd::prelude::*;
use vstd::utf8::{encode_utf8, valid_utf8};
use crate::codec::{
    bool_enc, read_bool, read_bytes, read_string, read_u8, read_varint, string_enc, varint_enc,
    varint_len_at, varint_size, varint_val, write_bool, write_string, write_u8, write_varint,
    ReadError, WriteError,
};

verus! {

/// A value that knows its exact serialized size without being written.
pub trait PacketSize {
    /// The value's exact wire form.
    spec fn wire(&self) -> Seq<u8>;

    /// When the size fits the machine word.
    spec fn size_wf(&self) -> bool;

    /// The exact number of bytes `write` produces for this value.
    fn size(&self) -> (r: usize)
        requires
            self.size_wf(),
        ensures
            r == self.wire().len(),
    ;
}

/// A value that can be serialized to a wire buffer.
pub trait PacketWrite: PacketSize {
    /// When writing succeeds (a declared maximum can make it fail).
    spec fn write_ok(&self) -> bool;

    /// Appends the value's wire form; a failed write appends nothing.
    fn write(&self, buf: &mut Vec<u8>) -> (r: Result<(), WriteError>)
        ensures
            r is Ok <==> self.write_ok(),
            r is Ok ==> final(buf)@ == old(buf)@ + self.wire(),
            r is Err ==> final(buf)@ == old(buf)@,
    ;
}

/// A value that can be deserialized from a wire buffer, never panicking on
/// short input.
pub trait PacketRead: Sized {
    /// When a read at the front of `s` succeeds.
    spec fn read_ok(s: Seq<u8>) -> bool;

    /// What a successful read returns: the value and the bytes consumed.
    spec fn read_out(s: Seq<u8>, v: Self, n: int) -> bool;

    /// Reads one value at `pos`: the value and the bytes consumed.
    fn read(buf: &[u8], pos: usize) -> (r: Result<(Self, usize), ReadError>)
        requires
            pos <= buf@.len(),
        ensures
            r matches Ok((v, n)) ==> Self::read_ok(buf@.skip(pos as int)) && Self::read_out(
                buf@.skip(pos as int),
                v,
                n as int,
            ) && pos + n <= buf@.len(),
            r is Err <==> !Self::read_ok(buf@.skip(pos as int)),
    ;
}

/// A 32-bit integer carried as a varint on the wire.
#[derive(Debug, Clone, Copy, PartialEq, Eq, Structural)]
pub struct VarI32(pub i32);

impl PacketSize for VarI32 {
    open spec fn wire(&self) -> Seq<u8> {
        varint_enc(self.0 as u32)
    }

    open spec fn size_wf(&self) -> bool {
        true
    }

    fn size(&self) -> (r: usize) {
        varint_size(self.0)
    }
}

impl PacketWrite for VarI32 {
    open spec fn write_ok(&self) -> bool {
        true
    }

    fn write(&self, buf: &mut Vec<u8>) -> (r: Result<(), WriteError>) {
        write_varint(buf, self.0);
        Ok(())
    }
}

impl PacketRead for VarI32 {
    open spec fn read_ok(s: Seq<u8>) -> bool {
        varint_len_at(s) is Some
    }

    open spec fn read_out(s: Seq<u8>, v: Self, n: int) -> bool {
        varint_len_at(s) == Some(n) && v.0 == varint_val(s, n) as i32
    }

    fn read(buf: &[u8], pos: usize) -> (r: Result<(Self, usize), ReadError>) {
        match read_varint(buf, pos) {
            Ok((v, n)) => Ok((VarI32(v), n)),
            Err(e) => Err(e),
        }
    }
}

impl PacketSize for bool {
    open spec fn wire(&self) -> Seq<u8> {
        bool_enc(*self)
    }

    open spec fn size_wf(&self) -> bool {
        true
    }

    fn size(&self) -> (r: usize) {
        1
    }
}

impl PacketWrite for bool {
    open spec fn write_ok(&self) -> bool {
        true
    }

    fn write(&self, buf: &mut Vec<u8>) -> (r: Result<(), WriteError>) {
        write_bool(buf, *self);
        Ok(())
    }
}

impl PacketRead for bool {
    open spec fn read_ok(s: Seq<u8>) -> bool {
        s.len() >= 1
    }

    open spec fn read_out(s: Seq<u8>, v: Self, n: int) -> bool {
        n == 1 && v == (s[0] != 0)
    }

    fn read(buf: &[u8], pos: usize) -> (r: Result<(Self, usize), ReadError>) {
        read_bool(buf, pos)
    }
}

impl PacketSize for u8 {
    open spec fn wire(&self) -> Seq<u8> {
        seq![*self]
    }

    open spec fn size_wf(&self) -> bool {
        true
    }

    fn size(&self) -> (r: usize) {
        1
    }
}

impl PacketWrite for u8 {
    open spec fn write_ok(&self) -> bool {
        true
    }

    fn write(&self, buf: &mut Vec<u8>) -> (r: Result<(), WriteError>) {
        write_u8(buf, *self);
        Ok(())
    }
}

impl PacketRead for u8 {
    open spec fn read_ok(s: Seq<u8>) -> bool {
        s.len() >= 1
    }

    open spec fn read_out(s: Seq<u8>, v: Self, n: int) -> bool {
        n == 1 && v == s[0]
    }

    fn read(buf: &[u8], pos: usize) -> (r: Result<(Self, usize), ReadError>) {
        read_u8(buf, pos)
    }
}

// ----------------------------------------------------------------------
// Seeded variants: the seed supplies context — a declared maximum, or a
// byte count that an enclosing structure already carries.
// ----------------------------------------------------------------------

/// Size computation through a seed.
pub trait PacketSizeSeed {
    /// The type measured by using this seed.
    type Value;

    /// The value's exact wire form under this seed.
    spec fn seed_wire(&self, v: &Self::Value) -> Seq<u8>;

    /// When the size fits the machine word.
    spec fn seed_size_wf(&self, v: &Self::Value) -> bool;

    /// The exact number of bytes a seeded write produces for this value.
    fn size(&self, value: &Self::Value) -> (r: usize)
        requires
            self.seed_size_wf(value),
        ensures
            r == self.seed_wire(value).len(),
    ;
}

/// Serialization through a seed.
pub trait PacketWriteSeed: PacketSizeSeed {
    /// When the seeded write succeeds.
    spec fn seed_write_ok(&self, v: &Self::Value) -> bool;

    /// Appends the value's wire form; a failed write appends nothing.
    fn write(&self, value: &Self::Value, buf: &mut Vec<u8>) -> (r: Result<(), WriteError>)
        ensures
            r is Ok <==> self.seed_write_ok(value),
            r is Ok ==> final(buf)@ == old(buf)@ + self.seed_wire(value),
            r is Err ==> final(buf)@ == old(buf)@,
    ;
}

/// Deserialization through a seed.
pub trait PacketReadSeed {
    /// The type produced by using this seed.
    type Value;

    /// When a seeded read at the front of `s` succeeds.
    spec fn seed_read_ok(&self, s: Seq<u8>) -> bool;

    /// What a successful seeded read returns.
    spec fn seed_read_out(&self, s: Seq<u8>, v: &Self::Value, n: int) -> bool;

    /// Reads one value at `pos`: the value and the bytes consumed.
    fn read(&self, buf: &[u8], pos: usize) -> (r: Result<(Self::Value, usize), ReadError>)
        requires
            pos <= buf@.len(),
        ensures
            r matches Ok(p) ==> self.seed_read_ok(buf@.skip(pos as int)) && self.seed_read_out(
                buf@.skip(pos as int),
                &p.0,
                p.1 as int,
            ) && pos + p.1 <= buf@.len(),
            r is Err <==> !self.seed_read_ok(buf@.skip(pos as int)),
    ;
}

/// The seed for length-prefixed strings: the schema-declared maximum UTF-8
/// byte length.
#[derive(Debug, Clone, Copy, PartialEq, Eq, Structural)]
pub struct PacketString {
    pub max: u32,
}

impl PacketString {
    /// A string seed with the declared maximum.
    pub fn new(max: u32) -> (r: PacketString)
        ensures
            r.max == max,
    {
        PacketString { max }
    }
}

impl PacketSizeSeed for PacketString {
    type Value = String;

    open spec fn seed_wire(&self, v: &String) -> Seq<u8> {
        string_enc(v@)
    }

    open spec fn seed_size_wf(&self, v: &String) -> bool {
        encode_utf8(v@).len() + 5 <= usize::MAX && encode_utf8(v@).len() <= 0xffff_ffff
    }

    fn size(&self, value: &String) -> (r: usize) {
        crate::codec::string_size(value.as_str())
    }
}

impl PacketWriteSeed for PacketString {
    open spec fn seed_write_ok(&self, v: &String) -> bool {
        encode_utf8(v@).len() <= self.max
    }

    fn write(&self, value: &String, buf: &mut Vec<u8>) -> (r: Result<(), WriteError>) {
        write_string(buf, value.as_str(), self.max)
    }
}

impl PacketReadSeed for PacketString {
    type Value = String;

    open spec fn seed_read_ok(&self, s: Seq<u8>) -> bool {
        &&& varint_len_at(s) is Some
        &&& varint_val(s, varint_len_at(s)->Some_0) <= self.max
        &&& varint_len_at(s)->Some_0 + varint_val(s, varint_len_at(s)->Some_0) <= s.len()
        &&& valid_utf8(
            s.subrange(
                varint_len_at(s)->Some_0,
                varint_len_at(s)->Some_0 + varint_val(s, varint_len_at(s)->Some_0),
            ),
        )
    }

    open spec fn seed_read_out(&self, s: Seq<u8>, v: &String, n: int) -> bool {
        let pl = varint_len_at(s)->Some_0;
        let bl = varint_val(s, pl) as int;
        n == pl + bl && encode_utf8(v@) == s.subrange(pl, pl + bl)
    }

    fn read(&self, buf: &[u8], pos: usize) -> (r: Result<(String, usize), ReadError>) {
        broadcast use vstd::utf8::encode_utf8_valid_utf8;

        read_string(buf, pos, self.max)
    }
}

/// The seed for raw byte runs: the byte count, supplied by an enclosing
/// structure rather than a prefix.
#[derive(Debug, Clone, Copy, PartialEq, Eq, Structural)]
pub struct AsRefU8 {
    pub count: usize,
}

impl PacketSizeSeed for AsRefU8 {
    type Value = Vec<u8>;

    open spec fn seed_wire(&self, v: &Vec<u8>) -> Seq<u8> {
        v@
    }

    open spec fn seed_size_wf(&self, v: &Vec<u8>) -> bool {
        true
    }

    fn size(&self, value: &Vec<u8>) -> (r: usize) {
        value.len()
    }
}

impl PacketWriteSeed for AsRefU8 {
    open spec fn seed_write_ok(&self, v: &Vec<u8>) -> bool {
        true
    }

    fn write(&self, value: &Vec<u8>, buf: &mut Vec<u8>) -> (r: Result<(), WriteError>) {
        crate::codec::write_bytes(buf, value.as_slice());
        Ok(())
    }
}

impl PacketReadSeed for AsRefU8 {
    type Value = Vec<u8>;

    open spec fn seed_read_ok(&self, s: Seq<u8>) -> bool {
        self.count <= s.len()
    }

    open spec fn seed_read_out(&self, s: Seq<u8>, v: &Vec<u8>, n: int) -> bool {
        n == self.count && v@ == s.take(self.count as int)
    }

    fn read(&self, buf: &[u8], pos: usize) -> (r: Result<(Vec<u8>, usize), ReadError>) {
        let r = read_bytes(buf, pos, self.count);
        proof {
            let s = buf@.skip(pos as int);
            if pos + self.count <= buf@.len() {
                assert(buf@.subrange(pos as int, pos + self.count) =~= s.take(self.count as int));
            }
        }
        r
    }
}

} // verus!

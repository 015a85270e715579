//! The outbound and inbound packets this core serializes, with their exact
//! wire forms. Floating-point fields travel as their IEEE bit patterns; the
//! transport layer converts at the edge.

use vstd::prelude::*;
use vstd::utf8::encode_utf8;
use crate::codec::{
    be16_val, be32_enc, be64_enc, bool_enc, read_string, read_u16, read_varint, string_enc,
    varint_enc, varint_len_at, varint_val, write_bool, write_i32, write_string, write_u16,
    write_u32, write_u64, write_u8, write_varint, ReadError, WriteError,
};
use crate::server::{difficulty_byte, Difficulty};

verus! {

/// Declared maximum UTF-8 byte length of a level-type string.
pub const LEVEL_TYPE_MAX: u32 = 16;

/// Declared maximum UTF-8 byte length of a username.
pub const USERNAME_MAX: u32 = 16;

/// The packet that spawns a player: entity id, game mode, dimension,
/// difficulty, player capacity, level type and the reduced-debug flag.
#[derive(Debug)]
pub struct JoinGamePacket {
    pub entity_id: i32,
    pub game_mode: u8,
    pub dimension: i32,
    pub difficulty: Difficulty,
    pub max_players: u8,
    pub level_type: String,
    pub reduced_debug: bool,
}

impl JoinGamePacket {
    /// Builds the packet from its semantic arguments.
    pub fn new(
        entity_id: i32,
        game_mode: u8,
        dimension: i32,
        difficulty: Difficulty,
        max_players: u8,
        level_type: String,
        reduced_debug: bool,
    ) -> (r: JoinGamePacket)
        ensures
            r == (JoinGamePacket {
                entity_id,
                game_mode,
                dimension,
                difficulty,
                max_players,
                level_type,
                reduced_debug,
            }),
    {
        JoinGamePacket {
            entity_id,
            game_mode,
            dimension,
            difficulty,
            max_players,
            level_type,
            reduced_debug,
        }
    }

    /// The packet's exact wire form.
    pub open spec fn wire(&self) -> Seq<u8> {
        be32_enc(self.entity_id as u32) + seq![self.game_mode] + be32_enc(self.dimension as u32)
            + seq![difficulty_byte(self.difficulty)] + seq![self.max_players] + string_enc(
            self.level_type@,
        ) + bool_enc(self.reduced_debug)
    }

    /// Serializes the packet; fails exactly when the level type exceeds its
    /// declared maximum byte length.
    pub fn encode(&self) -> (r: Result<Vec<u8>, WriteError>)
        ensures
            r matches Ok(b) ==> b@ == self.wire(),
            r is Ok <==> encode_utf8(self.level_type@).len() <= LEVEL_TYPE_MAX,
    {
        let mut buf: Vec<u8> = Vec::new();
        write_i32(&mut buf, self.entity_id);
        write_u8(&mut buf, self.game_mode);
        write_i32(&mut buf, self.dimension);
        write_u8(&mut buf, self.difficulty.to_byte());
        write_u8(&mut buf, self.max_players);
        match write_string(&mut buf, self.level_type.as_str(), LEVEL_TYPE_MAX) {
            Ok(()) => {},
            Err(e) => {
                return Err(e);
            },
        }
        write_bool(&mut buf, self.reduced_debug);
        assert(buf@ =~= self.wire());
        Ok(buf)
    }
}

/// The packet that sets a player's movement abilities; the two speeds are
/// IEEE single-precision bit patterns.
#[derive(Debug, Clone, Copy, PartialEq, Eq, Structural)]
pub struct PlayerAbilitiesPacket {
    pub flags: u8,
    pub flying_speed_bits: u32,
    pub fov_modifier_bits: u32,
}

impl PlayerAbilitiesPacket {
    /// Builds the packet from its semantic arguments.
    pub fn new(flags: u8, flying_speed_bits: u32, fov_modifier_bits: u32) -> (r:
        PlayerAbilitiesPacket)
        ensures
            r == (PlayerAbilitiesPacket { flags, flying_speed_bits, fov_modifier_bits }),
    {
        PlayerAbilitiesPacket { flags, flying_speed_bits, fov_modifier_bits }
    }

    /// The packet's exact wire form.
    pub open spec fn wire(&self) -> Seq<u8> {
        seq![self.flags] + be32_enc(self.flying_speed_bits) + be32_enc(self.fov_modifier_bits)
    }

    /// Serializes the packet; never fails.
    pub fn encode(&self) -> (r: Vec<u8>)
        ensures
            r@ == self.wire(),
    {
        let mut buf: Vec<u8> = Vec::new();
        write_u8(&mut buf, self.flags);
        write_u32(&mut buf, self.flying_speed_bits);
        write_u32(&mut buf, self.fov_modifier_bits);
        assert(buf@ =~= self.wire());
        buf
    }
}

/// The packet that teleports a player: coordinates and angles as IEEE bit
/// patterns, relative-move flags, and the teleport id to confirm.
#[derive(Debug, Clone, Copy, PartialEq, Eq, Structural)]
pub struct PlayerPositionAndLookPacket {
    pub x_bits: u64,
    pub y_bits: u64,
    pub z_bits: u64,
    pub yaw_bits: u32,
    pub pitch_bits: u32,
    pub flags: u8,
    pub teleport_id: i32,
}

impl PlayerPositionAndLookPacket {
    /// Builds the packet from its semantic arguments.
    pub fn new(
        x_bits: u64,
        y_bits: u64,
        z_bits: u64,
        yaw_bits: u32,
        pitch_bits: u32,
        flags: u8,
        teleport_id: i32,
    ) -> (r: PlayerPositionAndLookPacket)
        ensures
            r == (PlayerPositionAndLookPacket {
                x_bits,
                y_bits,
                z_bits,
                yaw_bits,
                pitch_bits,
                flags,
                teleport_id,
            }),
    {
        PlayerPositionAndLookPacket { x_bits, y_bits, z_bits, yaw_bits, pitch_bits, flags, teleport_id }
    }

    /// The packet's exact wire form.
    pub open spec fn wire(&self) -> Seq<u8> {
        be64_enc(self.x_bits) + be64_enc(self.y_bits) + be64_enc(self.z_bits) + be32_enc(
            self.yaw_bits,
        ) + be32_enc(self.pitch_bits) + seq![self.flags] + varint_enc(self.teleport_id as u32)
    }

    /// Serializes the packet; never fails.
    pub fn encode(&self) -> (r: Vec<u8>)
        ensures
            r@ == self.wire(),
    {
        let mut buf: Vec<u8> = Vec::new();
        write_u64(&mut buf, self.x_bits);
        write_u64(&mut buf, self.y_bits);
        write_u64(&mut buf, self.z_bits);
        write_u32(&mut buf, self.yaw_bits);
        write_u32(&mut buf, self.pitch_bits);
        write_u8(&mut buf, self.flags);
        write_varint(&mut buf, self.teleport_id);
        assert(buf@ =~= self.wire());
        buf
    }
}

/// The liveness probe: an opaque 64-bit payload the client echoes back.
#[derive(Debug, Clone, Copy, PartialEq, Eq, Structural)]
pub struct KeepAlivePacket {
    pub id: i64,
}

impl KeepAlivePacket {
    /// The packet around a probe value, as a specification value.
    pub open spec fn new_spec(id: i64) -> KeepAlivePacket {
        KeepAlivePacket { id }
    }

    /// Builds the packet around its probe value.
    pub fn new(id: i64) -> (r: KeepAlivePacket)
        ensures
            r == KeepAlivePacket::new_spec(id),
    {
        KeepAlivePacket { id }
    }

    /// The packet's exact wire form.
    pub open spec fn wire(&self) -> Seq<u8> {
        be64_enc(self.id as u64)
    }

    /// Serializes the packet; never fails.
    pub fn encode(&self) -> (r: Vec<u8>)
        ensures
            r@ == self.wire(),
    {
        let mut buf: Vec<u8> = Vec::new();
        crate::codec::write_i64(&mut buf, self.id);
        assert(buf@ =~= self.wire());
        buf
    }
}

/// The first login packet a client sends: its username.
#[derive(Debug)]
pub struct LoginStartPacket {
    pub name: String,
}


/// Declared maximum UTF-8 byte length of the server address in a handshake.
pub const ADDRESS_MAX: u32 = 255;

/// The first packet of every connection: the client's protocol version, the
/// address and port it connected to, and the phase it asks for next
/// (1 = status, 2 = login).
#[derive(Debug)]
pub struct HandshakePacket {
    pub protocol_version: i32,
    pub server_address: String,
    pub server_port: u16,
    pub next_state: i32,
}

/// The handshake's exact wire form.
pub open spec fn handshake_wire(
    protocol_version: i32,
    address: Seq<char>,
    port: u16,
    next_state: i32,
) -> Seq<u8> {
    varint_enc(protocol_version as u32) + string_enc(address) + crate::codec::be16_enc(port)
        + varint_enc(next_state as u32)
}

/// What a successful handshake read returns for input `s`: the four fields
/// in order — a varint, a length-prefixed string of at most `ADDRESS_MAX`
/// bytes, a big-endian port, a varint — consuming `n` bytes.
pub open spec fn handshake_parse_ok(s: Seq<u8>, p: HandshakePacket, n: int) -> bool {
    let n1 = varint_len_at(s)->Some_0;
    let s2 = s.skip(n1);
    let pl = varint_len_at(s2)->Some_0;
    let bl = varint_val(s2, pl) as int;
    let s3 = s2.skip(pl + bl);
    let s4 = s3.skip(2);
    let n4 = varint_len_at(s4)->Some_0;
    &&& varint_len_at(s) is Some
    &&& p.protocol_version == varint_val(s, n1) as i32
    &&& varint_len_at(s2) is Some
    &&& bl <= ADDRESS_MAX
    &&& pl + bl <= s2.len()
    &&& encode_utf8(p.server_address@) == s2.subrange(pl, pl + bl)
    &&& s3.len() >= 2
    &&& p.server_port as int == be16_val(s3)
    &&& varint_len_at(s4) is Some
    &&& p.next_state == varint_val(s4, n4) as i32
    &&& n == n1 + pl + bl + 2 + n4
}

impl HandshakePacket {
    /// Serializes the handshake; fails exactly when the address exceeds its
    /// declared maximum byte length, and then writes nothing.
    pub fn write(&self, buf: &mut Vec<u8>) -> (r: Result<(), WriteError>)
        ensures
            r is Ok <==> encode_utf8(self.server_address@).len() <= ADDRESS_MAX,
            r is Ok ==> final(buf)@ == old(buf)@ + handshake_wire(
                self.protocol_version,
                self.server_address@,
                self.server_port,
                self.next_state,
            ),
            r is Err ==> final(buf)@ == old(buf)@,
    {
        let mut tmp: Vec<u8> = Vec::new();
        write_varint(&mut tmp, self.protocol_version);
        match write_string(&mut tmp, self.server_address.as_str(), ADDRESS_MAX) {
            Ok(()) => {},
            Err(e) => {
                return Err(e);
            },
        }
        write_u16(&mut tmp, self.server_port);
        write_varint(&mut tmp, self.next_state);
        let ghost written = tmp@;
        buf.append(&mut tmp);
        proof {
            assert(written =~= handshake_wire(
                self.protocol_version,
                self.server_address@,
                self.server_port,
                self.next_state,
            ));
        }
        Ok(())
    }

    /// Reads a handshake from the front of the buffer: the packet and the
    /// bytes consumed. Succeeds exactly on input whose front parses as the
    /// four fields within their limits.
    pub fn read(buffer: &[u8]) -> (r: Result<(HandshakePacket, usize), ReadError>)
        ensures
            r matches Ok((p, n)) ==> handshake_parse_ok(buffer@, p, n as int) && n <= buffer@.len(),
            r is Err ==> forall|p2: HandshakePacket, n2: int|
                !(#[trigger] handshake_parse_ok(buffer@, p2, n2)),
    {
        broadcast use vstd::utf8::encode_utf8_valid_utf8;

        let ghost s = buffer@;
        let (protocol_version, n1) = match read_varint(buffer, 0) {
            Ok(v) => v,
            Err(e) => {
                proof {
                    assert(s.skip(0) =~= s);
                }
                return Err(e);
            },
        };
        proof {
            assert(s.skip(0) =~= s);
        }
        let (server_address, n2) = match read_string(buffer, n1, ADDRESS_MAX) {
            Ok(v) => v,
            Err(e) => {
                return Err(e);
            },
        };
        let (server_port, _) = match read_u16(buffer, n1 + n2) {
            Ok(v) => v,
            Err(e) => {
                proof {
                    let s3 = s.skip(n1 as int).skip(
                        varint_len_at(s.skip(n1 as int))->Some_0 + varint_val(
                            s.skip(n1 as int),
                            varint_len_at(s.skip(n1 as int))->Some_0,
                        ) as int,
                    );
                    assert(s3.len() < 2);
                }
                return Err(e);
            },
        };
        let (next_state, n4) = match read_varint(buffer, n1 + n2 + 2) {
            Ok(v) => v,
            Err(e) => {
                proof {
                    let s2 = s.skip(n1 as int);
                    let pl = varint_len_at(s2)->Some_0;
                    let bl = varint_val(s2, pl) as int;
                    let s4 = s2.skip(pl + bl).skip(2);
                    assert(s4 =~= s.skip(n1 + n2 + 2));
                }
                return Err(e);
            },
        };
        let p = HandshakePacket { protocol_version, server_address, server_port, next_state };
        proof {
            let s2 = s.skip(n1 as int);
            let pl = varint_len_at(s2)->Some_0;
            let bl = varint_val(s2, pl) as int;
            let s3 = s2.skip(pl + bl);
            let s4 = s3.skip(2);
            assert(s2 =~= buffer@.skip(n1 as int));
            assert(s3 =~= s.skip(n1 + n2));
            assert(s3.take(2) =~= s.subrange(n1 + n2, n1 + n2 + 2));
            assert(be16_val(s3) == be16_val(s.subrange(n1 + n2, n1 + n2 + 2))) by {
                assert(s3[0] == s[n1 + n2] && s3[1] == s[n1 + n2 + 1]);
                assert(s.subrange(n1 + n2, n1 + n2 + 2)[0] == s[n1 + n2]);
                assert(s.subrange(n1 + n2, n1 + n2 + 2)[1] == s[n1 + n2 + 1]);
            }
            assert(s4 =~= s.skip(n1 + n2 + 2));
            assert(s2.subrange(pl, pl + bl) =~= s.skip(n1 as int).subrange(pl, pl + bl));
        }
        Ok((p, n1 + n2 + 2 + n4))
    }
}

/// Law: a written handshake reads back field for field, whatever follows it.
#[verifier::rlimit(100)]
pub proof fn lemma_handshake_round_trip(p: HandshakePacket, q: HandshakePacket, n: int, rest: Seq<u8>)
    requires
        encode_utf8(p.server_address@).len() <= ADDRESS_MAX,
        handshake_parse_ok(
            handshake_wire(p.protocol_version, p.server_address@, p.server_port, p.next_state)
                + rest,
            q,
            n,
        ),
    ensures
        q.protocol_version == p.protocol_version,
        q.server_address@ == p.server_address@,
        q.server_port == p.server_port,
        q.next_state == p.next_state,
        n == handshake_wire(
            p.protocol_version,
            p.server_address@,
            p.server_port,
            p.next_state,
        ).len(),
{
    let addr = encode_utf8(p.server_address@);
    let pv_enc = varint_enc(p.protocol_version as u32);
    let len_enc = varint_enc(addr.len() as u32);
    let port_enc = crate::codec::be16_enc(p.server_port);
    let ns_enc = varint_enc(p.next_state as u32);
    let t = handshake_wire(p.protocol_version, p.server_address@, p.server_port, p.next_state)
        + rest;
    crate::codec::lemma_varint_enc_parses(
        p.protocol_version as u32,
        string_enc(p.server_address@) + port_enc + ns_enc + rest,
    );
    assert(t =~= pv_enc + (string_enc(p.server_address@) + port_enc + ns_enc + rest));
    let pv = p.protocol_version;
    assert(pv as u32 as i32 == pv) by (bit_vector);
    let s2 = t.skip(pv_enc.len() as int);
    assert(s2 =~= string_enc(p.server_address@) + (port_enc + ns_enc + rest));
    crate::codec::lemma_varint_enc_parses(addr.len() as u32, addr + (port_enc + ns_enc + rest));
    assert(s2 =~= len_enc + (addr + (port_enc + ns_enc + rest)));
    let pl = varint_len_at(s2)->Some_0;
    let bl = varint_val(s2, pl) as int;
    assert(bl == addr.len());
    assert(s2.subrange(pl, pl + bl) =~= addr);
    crate::codec::lemma_utf8_injective(q.server_address@, p.server_address@);
    let s3 = s2.skip(pl + bl);
    assert(s3 =~= port_enc + (ns_enc + rest));
    crate::codec::lemma_be16_round_trip(p.server_port, ns_enc + rest);
    assert(be16_val(s3) == p.server_port);
    let s4 = s3.skip(2);
    assert(s4 =~= ns_enc + rest);
    crate::codec::lemma_varint_enc_parses(p.next_state as u32, rest);
    let ns = p.next_state;
    assert(ns as u32 as i32 == ns) by (bit_vector);
    assert(n == pv_enc.len() + pl + bl + 2 + ns_enc.len());
    assert(t.len() - rest.len() == pv_enc.len() + len_enc.len() + addr.len() + 2 + ns_enc.len());
}

} // verus!

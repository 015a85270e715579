//! Protocol 1.13.2: inbound packet resolution for the login phase, and
//! outbound packet construction.

use vstd::prelude::*;
use vstd::utf8::{encode_utf8, valid_utf8};
use crate::bridge::ConnectionOp;
use crate::codec::{
    read_string, varint_len_at, varint_malformed, varint_val, ReadError, WriteError,
};
use crate::network::{NetworkState, Phase};
use crate::packets::{
    JoinGamePacket, LoginStartPacket, PlayerAbilitiesPacket, PlayerPositionAndLookPacket,
    LEVEL_TYPE_MAX, USERNAME_MAX,
};
use crate::server::{Difficulty, Player};

verus! {

/// Numeric id of the login-start packet in the login phase.
pub const LOGIN_START_ID: i32 = 0x00;

/// The login-phase packets this version understands.
#[derive(Debug)]
pub enum LoginPackets {
    LoginStart(LoginStartPacket),
}

/// An inbound packet of this version, grouped by phase.
#[derive(Debug)]
pub enum PacketList {
    Login(LoginPackets),
}

impl PacketList {
    /// Resolves and decodes an inbound packet for the connection's phase.
    /// Only the login phase is interpreted here: id 0 is a login start with
    /// a length-prefixed username; any other id — and any packet in another
    /// phase — is unrecognized (`None`, not an error: callers skip it).
    pub fn from(packet_id: i32, state: &NetworkState, buffer: &[u8]) -> (r: Result<
        Option<PacketList>,
        ReadError,
    >)
        ensures
            !(state.phase == Phase::Login && packet_id == LOGIN_START_ID) ==> (r matches Ok(o)
                && o is None),
            state.phase == Phase::Login && packet_id == LOGIN_START_ID ==> ({
                let s = buffer@;
                let pl = varint_len_at(s)->Some_0;
                let bl = varint_val(s, pl) as int;
                match r {
                    Ok(Some(PacketList::Login(LoginPackets::LoginStart(p)))) => {
                        &&& varint_len_at(s) is Some
                        &&& bl <= USERNAME_MAX
                        &&& pl + bl <= s.len()
                        &&& encode_utf8(p.name@) == s.subrange(pl, pl + bl)
                    },
                    Ok(None) => false,
                    Err(ReadError::VarIntTooLong) => varint_malformed(s),
                    Err(ReadError::Underrun) => (varint_len_at(s) is None && !varint_malformed(s))
                        || (varint_len_at(s) is Some && bl <= USERNAME_MAX && pl + bl > s.len()),
                    Err(ReadError::StringTooLong) => varint_len_at(s) is Some && bl > USERNAME_MAX,
                    Err(ReadError::InvalidUtf8) => varint_len_at(s) is Some && bl <= USERNAME_MAX
                        && pl + bl <= s.len() && !valid_utf8(s.subrange(pl, pl + bl)),
                    Err(_) => false,
                }
            }),
    {
        if !matches!(state.phase, Phase::Login) {
            return Ok(None);
        }
        if packet_id != LOGIN_START_ID {
            return Ok(None);
        }
        match read_string(buffer, 0, USERNAME_MAX) {
            Ok((name, _)) => {
                proof {
                    assert(buffer@.skip(0) =~= buffer@);
                }
                Ok(Some(PacketList::Login(LoginPackets::LoginStart(LoginStartPacket { name }))))
            },
            Err(e) => {
                proof {
                    assert(buffer@.skip(0) =~= buffer@);
                }
                Err(e)
            },
        }
    }
}

/// Numeric id of the join-game packet at this version.
pub const JOIN_GAME_ID: i32 = 0x25;

/// Numeric id of the player-abilities packet at this version.
pub const PLAYER_ABILITIES_ID: i32 = 0x2E;

/// Numeric id of the position-and-look packet at this version.
pub const PLAYER_POSITION_AND_LOOK_ID: i32 = 0x32;

/// Outbound packet construction for protocol 1.13.2; the wire layouts match
/// 1.13, and so do the numeric ids of the packets built here.
pub struct PacketSend;

impl PacketSend {
    /// The deferred operation that sends a join-game packet: its exact id
    /// and bytes. Fails exactly when the level type exceeds its declared
    /// maximum.
    pub fn join_game_op(packet: &JoinGamePacket) -> (r: Result<ConnectionOp, WriteError>)
        ensures
            r matches Ok(op) ==> op matches ConnectionOp::SendPacket { packet_id, payload }
                && packet_id == JOIN_GAME_ID && payload@ == packet.wire(),
            r is Ok <==> encode_utf8(packet.level_type@).len() <= LEVEL_TYPE_MAX,
    {
        let payload = match packet.encode() {
            Ok(b) => b,
            Err(e) => {
                return Err(e);
            },
        };
        Ok(ConnectionOp::SendPacket { packet_id: JOIN_GAME_ID, payload })
    }

    /// Sends the join-game packet for the player. Fails exactly when the
    /// level type exceeds its declared maximum byte length.
    pub fn join_game(
        &self,
        player: &Player,
        difficulty: Difficulty,
        max_players: u8,
        level_type: String,
        reduced_debug: bool,
    ) -> (r: Result<(), WriteError>)
        ensures
            r is Ok <==> encode_utf8(level_type@).len() <= LEVEL_TYPE_MAX,
    {
        let packet = JoinGamePacket::new(
            player.entity_id,
            player.game_mode,
            player.dimension,
            difficulty,
            max_players,
            level_type,
            reduced_debug,
        );
        let op = match Self::join_game_op(&packet) {
            Ok(op) => op,
            Err(e) => {
                return Err(e);
            },
        };
        player.connection.execute_sync(op);
        Ok(())
    }

    /// The deferred operation that sends a player-abilities packet: its
    /// exact id and bytes.
    pub fn player_abilities_op(packet: &PlayerAbilitiesPacket) -> (r: ConnectionOp)
        ensures
            r matches ConnectionOp::SendPacket { packet_id, payload } && packet_id
                == PLAYER_ABILITIES_ID && payload@ == packet.wire(),
    {
        ConnectionOp::SendPacket { packet_id: PLAYER_ABILITIES_ID, payload: packet.encode() }
    }

    /// Sends the player-abilities packet; the speeds are IEEE bit patterns.
    pub fn player_abilities(
        &self,
        player: &Player,
        flying_speed_bits: u32,
        fov_modifier_bits: u32,
    ) {
        let packet = PlayerAbilitiesPacket::new(
            player.ability_flags,
            flying_speed_bits,
            fov_modifier_bits,
        );
        player.connection.execute_sync(Self::player_abilities_op(&packet));
    }

    /// The deferred operation that sends a position-and-look packet: its
    /// exact id and bytes.
    pub fn player_position_and_look_op(packet: &PlayerPositionAndLookPacket) -> (r: ConnectionOp)
        ensures
            r matches ConnectionOp::SendPacket { packet_id, payload } && packet_id
                == PLAYER_POSITION_AND_LOOK_ID && payload@ == packet.wire(),
    {
        ConnectionOp::SendPacket {
            packet_id: PLAYER_POSITION_AND_LOOK_ID,
            payload: packet.encode(),
        }
    }

    /// Sends the position-and-look packet built from the player's current
    /// coordinates, given as IEEE bit patterns.
    pub fn player_position_and_look(
        &self,
        player: &Player,
        x_bits: u64,
        y_bits: u64,
        z_bits: u64,
        yaw_bits: u32,
        pitch_bits: u32,
        flags: u8,
        teleport_id: i32,
    ) {
        let packet = PlayerPositionAndLookPacket::new(
            x_bits,
            y_bits,
            z_bits,
            yaw_bits,
            pitch_bits,
            flags,
            teleport_id,
        );
        player.connection.execute_sync(Self::player_position_and_look_op(&packet));
    }
}

} // verus!

//! Outbound packet construction for protocol 1.13.

use vstd::prelude::*;
use vstd::utf8::encode_utf8;
use crate::bridge::ConnectionOp;
use crate::codec::WriteError;
use crate::packets::{
    JoinGamePacket, KeepAlivePacket, PlayerAbilitiesPacket, PlayerPositionAndLookPacket,
    LEVEL_TYPE_MAX,
};
use crate::server::{Difficulty, Player};

verus! {

/// Numeric id of the join-game packet at this version.
pub const JOIN_GAME_ID: i32 = 0x25;

/// Numeric id of the player-abilities packet at this version.
pub const PLAYER_ABILITIES_ID: i32 = 0x2E;

/// Numeric id of the position-and-look packet at this version.
pub const PLAYER_POSITION_AND_LOOK_ID: i32 = 0x32;

/// Numeric id of the keep-alive packet at this version.
pub const KEEP_ALIVE_ID: i32 = 0x21;

/// Outbound packet construction for protocol 1.13: each builder resolves
/// this version's numeric id and encodes through the wire codec, then asks
/// the player's connection to send the frame. Enqueueing onto a closed
/// connection is discarded by design.
pub struct PacketSend;

impl PacketSend {
    /// The deferred operation that sends a join-game packet: its exact id
    /// and bytes. Fails exactly when the level type exceeds its declared
    /// maximum.
    pub fn join_game_op(packet: &JoinGamePacket) -> (r: Result<ConnectionOp, WriteError>)
        ensures
            r matches Ok(op) ==> op matches ConnectionOp::SendPacket { packet_id, payload }
                && packet_id == JOIN_GAME_ID && payload@ == packet.wire(),
            r is Ok <==> encode_utf8(packet.level_type@).len() <= LEVEL_TYPE_MAX,
    {
        let payload = match packet.encode() {
            Ok(b) => b,
            Err(e) => {
                return Err(e);
            },
        };
        Ok(ConnectionOp::SendPacket { packet_id: JOIN_GAME_ID, payload })
    }

    /// Sends the join-game packet for the player. Fails exactly when the
    /// level type exceeds its declared maximum byte length.
    pub fn join_game(
        &self,
        player: &Player,
        difficulty: Difficulty,
        max_players: u8,
        level_type: String,
        reduced_debug: bool,
    ) -> (r: Result<(), WriteError>)
        ensures
            r is Ok <==> encode_utf8(level_type@).len() <= LEVEL_TYPE_MAX,
    {
        let packet = JoinGamePacket::new(
            player.entity_id,
            player.game_mode,
            player.dimension,
            difficulty,
            max_players,
            level_type,
            reduced_debug,
        );
        let op = Self::join_game_op(&packet)?;
        player.connection.execute_sync(op);
        Ok(())
    }

    /// The deferred operation that sends a player-abilities packet: its
    /// exact id and bytes.
    pub fn player_abilities_op(packet: &PlayerAbilitiesPacket) -> (r: ConnectionOp)
        ensures
            r matches ConnectionOp::SendPacket { packet_id, payload } && packet_id
                == PLAYER_ABILITIES_ID && payload@ == packet.wire(),
    {
        ConnectionOp::SendPacket { packet_id: PLAYER_ABILITIES_ID, payload: packet.encode() }
    }

    /// Sends the player-abilities packet; the speeds are IEEE bit patterns.
    pub fn player_abilities(
        &self,
        player: &Player,
        flying_speed_bits: u32,
        fov_modifier_bits: u32,
    ) {
        let packet = PlayerAbilitiesPacket::new(
            player.ability_flags,
            flying_speed_bits,
            fov_modifier_bits,
        );
        player.connection.execute_sync(Self::player_abilities_op(&packet));
    }

    /// The deferred operation that sends a position-and-look packet: its
    /// exact id and bytes.
    pub fn player_position_and_look_op(packet: &PlayerPositionAndLookPacket) -> (r: ConnectionOp)
        ensures
            r matches ConnectionOp::SendPacket { packet_id, payload } && packet_id
                == PLAYER_POSITION_AND_LOOK_ID && payload@ == packet.wire(),
    {
        ConnectionOp::SendPacket {
            packet_id: PLAYER_POSITION_AND_LOOK_ID,
            payload: packet.encode(),
        }
    }

    /// Sends the position-and-look packet built from the player's current
    /// coordinates, given as IEEE bit patterns.
    pub fn player_position_and_look(
        &self,
        player: &Player,
        x_bits: u64,
        y_bits: u64,
        z_bits: u64,
        yaw_bits: u32,
        pitch_bits: u32,
        flags: u8,
        teleport_id: i32,
    ) {
        let packet = PlayerPositionAndLookPacket::new(
            x_bits,
            y_bits,
            z_bits,
            yaw_bits,
            pitch_bits,
            flags,
            teleport_id,
        );
        player.connection.execute_sync(Self::player_position_and_look_op(&packet));
    }

    /// The two deferred operations of a keepalive exchange, in the order
    /// they must run: first record `elapsed` as the last keepalive moment,
    /// then send the probe carrying it.
    pub fn keep_alive_ops(elapsed: u64) -> (r: (ConnectionOp, ConnectionOp))
        ensures
            r.0 == (ConnectionOp::ResetKeepAlive { time: elapsed }),
            r.1 matches ConnectionOp::SendPacket { packet_id, payload } && packet_id
                == KEEP_ALIVE_ID && payload@ == KeepAlivePacket::new_spec(elapsed as i64).wire(),
    {
        let packet = KeepAlivePacket::new(elapsed as i64);
        (
            ConnectionOp::ResetKeepAlive { time: elapsed },
            ConnectionOp::SendPacket { packet_id: KEEP_ALIVE_ID, payload: packet.encode() },
        )
    }

    /// Records `elapsed` as the connection's last keepalive moment and sends
    /// the keep-alive probe carrying it, in that order.
    pub fn keep_alive(&self, player: &Player, elapsed: u64) {
        let (reset, probe) = Self::keep_alive_ops(elapsed);
        player.connection.execute_sync(reset);
        player.connection.execute_sync(probe);
    }
}

} // verus!

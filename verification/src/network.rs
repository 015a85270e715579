//! Per-connection protocol state: the phase machine and the connection
//! context (phase, negotiated protocol version, last keepalive timestamp).

use vstd::prelude::*;

verus! {

/// Protocol version before negotiation.
pub const UNKNOWN_PROTOCOL: i32 = -1;

/// The four wire phases of a connection, plus the internal `Disconnected`
/// marker (never transmitted) that tells open and closed connections apart.
/// `Disconnected` is terminal and sticky: it exists purely to let buffered
/// writes drain before the transport closes.
#[derive(Debug, Clone, Copy, PartialEq, Eq, Structural)]
pub enum Phase {
    Handshake,
    Status,
    Login,
    Play,
    Disconnected,
}

/// Order of the phases along the connection's life. `Status` and `Login`
/// are the two branches out of `Handshake` and share a rank.
pub open spec fn phase_rank(p: Phase) -> int {
    match p {
        Phase::Handshake => 0,
        Phase::Status => 1,
        Phase::Login => 1,
        Phase::Play => 2,
        Phase::Disconnected => 3,
    }
}

/// The transitions the protocol allows: `Handshake` branches to `Status` or
/// `Login`, `Login` completes into `Play`, and any phase may be forced to
/// `Disconnected`. Nothing leaves `Disconnected`.
pub open spec fn phase_step_allowed(from: Phase, to: Phase) -> bool {
    ||| to == Phase::Disconnected
    ||| (from == Phase::Handshake && (to == Phase::Status || to == Phase::Login))
    ||| (from == Phase::Login && to == Phase::Play)
}

/// Law: transitions are monotonic — no allowed step re-enters an earlier
/// phase, and no step leaves `Disconnected`.
pub proof fn lemma_phase_monotonic(from: Phase, to: Phase)
    requires
        phase_step_allowed(from, to),
    ensures
        phase_rank(to) >= phase_rank(from),
        from == Phase::Disconnected ==> to == Phase::Disconnected,
{
}

/// Context of one network connection: its phase, its protocol version
/// (`UNKNOWN_PROTOCOL` until negotiated), and the timestamp of the last
/// keepalive. Owned exclusively by one connection actor.
#[derive(Debug, Clone, Copy, PartialEq, Eq, Structural)]
pub struct NetworkState {
    pub keepalive: u64,
    pub protocol: i32,
    pub phase: Phase,
}

/// The state a connection starts in: `Handshake`, no keepalive yet.
pub open spec fn initial_state(protocol: i32) -> NetworkState {
    NetworkState { keepalive: 0, protocol, phase: Phase::Handshake }
}

impl NetworkState {
    /// A fresh connection context in the `Handshake` phase.
    pub fn new(protocol: i32) -> (r: NetworkState)
        ensures
            r == initial_state(protocol),
    {
        NetworkState { keepalive: 0, protocol, phase: Phase::Handshake }
    }

    /// Requests the transition to `to`; moves only along an allowed step and
    /// reports whether it moved. `Disconnected` is never left.
    pub fn try_advance(&mut self, to: Phase) -> (moved: bool)
        ensures
            moved == phase_step_allowed(old(self).phase, to),
            final(self).phase == if moved {
                to
            } else {
                old(self).phase
            },
            final(self).keepalive == old(self).keepalive,
            final(self).protocol == old(self).protocol,
            old(self).phase == Phase::Disconnected ==> final(self).phase == Phase::Disconnected,
    {
        let allowed = match (self.phase, to) {
            (_, Phase::Disconnected) => true,
            (Phase::Handshake, Phase::Status) => true,
            (Phase::Handshake, Phase::Login) => true,
            (Phase::Login, Phase::Play) => true,
            _ => false,
        };
        if allowed {
            self.phase = to;
        }
        allowed
    }

    /// Forces the phase to `Disconnected`: the transport failed or the peer
    /// closed. Always allowed; never undone.
    pub fn force_disconnect(&mut self)
        ensures
            final(self).phase == Phase::Disconnected,
            final(self).keepalive == old(self).keepalive,
            final(self).protocol == old(self).protocol,
    {
        self.phase = Phase::Disconnected;
    }
}

} // verus!

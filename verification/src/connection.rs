//! Connection actor: owns one transport connection's state machine and its
//! read and write buffers. The asynchronous loop around it only moves bytes
//! and events; every decision — framing, phase changes, deferred operations
//! — is made here.

use vstd::prelude::*;
use crate::bridge::{connection_op_wf, ConnectionOp};
use crate::codec::ReadError;
use crate::frame::{
    frame_bad, frame_enc, frame_id, frame_payload, frame_ready, frame_total_len,
    lemma_frame_enc_parses, lemma_frame_enc_prefix, next_frame, WireFrame,
};
use crate::network::{initial_state, NetworkState, Phase};

verus! {

/// Result of draining every complete frame from the front of `s`: the frames
/// in arrival order, the bytes left buffered, and whether a frame that can
/// never complete was hit.
pub open spec fn drain_frames(s: Seq<u8>) -> (Seq<(i32, Seq<u8>)>, Seq<u8>, bool)
    decreases s.len(),
{
    if frame_bad(s) {
        (seq![], s, true)
    } else if !frame_ready(s) {
        (seq![], s, false)
    } else {
        let sub = drain_frames(s.skip(frame_total_len(s)));
        (seq![(frame_id(s), frame_payload(s))] + sub.0, sub.1, sub.2)
    }
}

/// The id and payload of each frame, in order.
pub open spec fn frame_views(v: Seq<WireFrame>) -> Seq<(i32, Seq<u8>)> {
    v.map_values(|f: WireFrame| (f.packet_id, f.payload@))
}

/// One transport connection: its protocol state and its two buffers. The
/// buffers and the state are owned exclusively by this actor; other actors
/// reach them only through deferred operations (`run_op`).
#[derive(Debug)]
pub struct FalconConnection {
    state: NetworkState,
    input: Vec<u8>,
    output: Vec<u8>,
}

impl FalconConnection {
    /// The connection's protocol state.
    pub closed spec fn spec_state(&self) -> NetworkState {
        self.state
    }

    /// Bytes received but not yet framed.
    pub closed spec fn in_buf(&self) -> Seq<u8> {
        self.input@
    }

    /// Bytes framed but not yet written to the transport.
    pub closed spec fn out_buf(&self) -> Seq<u8> {
        self.output@
    }

    /// A fresh connection in the `Handshake` phase with empty buffers.
    pub fn new(protocol: i32) -> (r: FalconConnection)
        ensures
            r.spec_state() == initial_state(protocol),
            r.in_buf() == Seq::<u8>::empty(),
            r.out_buf() == Seq::<u8>::empty(),
    {
        FalconConnection { state: NetworkState::new(protocol), input: Vec::new(), output: Vec::new() }
    }

    /// The connection's state, read-only.
    pub fn state(&self) -> (r: &NetworkState)
        ensures
            *r == self.spec_state(),
    {
        &self.state
    }

    /// The connection's state, for the handler that owns this actor.
    pub fn state_mut(&mut self) -> (r: &mut NetworkState)
        ensures
            *r == old(self).spec_state(),
            final(self).spec_state() == *final(r),
            final(self).in_buf() == old(self).in_buf(),
            final(self).out_buf() == old(self).out_buf(),
    {
        &mut self.state
    }

    /// Handles one transport read. A zero-length read means the peer closed:
    /// the phase is forced to `Disconnected` and nothing is dispatched.
    /// Otherwise the bytes join the inbound buffer and every complete frame
    /// is extracted, in arrival order; a partial frame stays buffered. A
    /// frame that can never complete reports its error and forces
    /// `Disconnected`; the frames before it are still returned, in order.
    pub fn on_read(&mut self, data: &[u8]) -> (r: (Vec<WireFrame>, Option<ReadError>))
        ensures
            final(self).spec_state().protocol == old(self).spec_state().protocol,
            final(self).spec_state().keepalive == old(self).spec_state().keepalive,
            final(self).out_buf() == old(self).out_buf(),
            old(self).spec_state().phase == Phase::Disconnected ==> final(self).spec_state().phase
                == Phase::Disconnected,
            data@.len() == 0 ==> r.0@.len() == 0 && r.1 is None && final(self).spec_state().phase
                == Phase::Disconnected && final(self).in_buf() == old(self).in_buf(),
            data@.len() > 0 ==> ({
                let drained = drain_frames(old(self).in_buf() + data@);
                &&& final(self).in_buf() == drained.1
                &&& frame_views(r.0@) == drained.0
                &&& (r.1 is Some <==> drained.2)
                &&& (drained.2 ==> final(self).spec_state().phase == Phase::Disconnected)
                &&& (!drained.2 ==> final(self).spec_state().phase == old(
                    self,
                ).spec_state().phase)
            }),
    {
        if data.len() == 0 {
            self.state.force_disconnect();
            let frames: Vec<WireFrame> = Vec::new();
            return (frames, None);
        }
        self.input.extend_from_slice(data);
        let ghost combined = self.input@;
        assert(combined == old(self).in_buf() + data@);
        let mut frames: Vec<WireFrame> = Vec::new();
        let mut bad: Option<ReadError> = None;
        let mut done = false;
        while !done
            invariant
                self.state == old(self).spec_state(),
                self.output@ == old(self).out_buf(),
                drain_frames(combined).0 == frame_views(frames@) + drain_frames(self.input@).0,
                drain_frames(combined).1 == drain_frames(self.input@).1,
                drain_frames(combined).2 == drain_frames(self.input@).2,
                done ==> match bad {
                    None => !frame_ready(self.input@) && !frame_bad(self.input@),
                    Some(e) => frame_bad(self.input@),
                },
                bad is Some ==> done,
            decreases self.input@.len(), (if done {
                0int
            } else {
                1int
            }),
        {
            let ghost pre = self.input@;
            match next_frame(&mut self.input) {
                Ok(Some(f)) => {
                    proof {
                        assert(drain_frames(pre).0 == seq![(frame_id(pre), frame_payload(pre))]
                            + drain_frames(self.input@).0);
                        assert(frame_views(frames@.push(f)) =~= frame_views(frames@).push(
                            (f.packet_id, f.payload@),
                        ));
                        assert(frame_views(frames@) + drain_frames(pre).0 =~= frame_views(
                            frames@.push(f),
                        ) + drain_frames(self.input@).0);
                    }
                    frames.push(f);
                },
                Ok(None) => {
                    done = true;
                },
                Err(e) => {
                    bad = Some(e);
                    done = true;
                },
            }
        }
        match bad {
            None => {
                proof {
                    assert(drain_frames(self.input@) == (
                        Seq::<(i32, Seq<u8>)>::empty(),
                        self.input@,
                        false,
                    ));
                    assert(drain_frames(combined).0 =~= frame_views(frames@));
                }
                assert(self.input@ == drain_frames(combined).1);
                assert(frame_views(frames@) == drain_frames(combined).0);
                assert(!drain_frames(combined).2);
                (frames, None)
            },
            Some(e) => {
                proof {
                    assert(drain_frames(self.input@) == (
                        Seq::<(i32, Seq<u8>)>::empty(),
                        self.input@,
                        true,
                    ));
                    assert(drain_frames(combined).0 =~= frame_views(frames@));
                }
                assert(self.input@ == drain_frames(combined).1);
                assert(frame_views(frames@) == drain_frames(combined).0);
                assert(drain_frames(combined).2);
                self.state.force_disconnect();
                (frames, Some(e))
            },
        }
    }

    /// A transport read or write failed: the connection is forced into
    /// `Disconnected`. Buffered output may still drain before the loop ends.
    pub fn on_transport_error(&mut self)
        ensures
            final(self).spec_state().phase == Phase::Disconnected,
            final(self).spec_state().protocol == old(self).spec_state().protocol,
            final(self).spec_state().keepalive == old(self).spec_state().keepalive,
            final(self).in_buf() == old(self).in_buf(),
            final(self).out_buf() == old(self).out_buf(),
    {
        self.state.force_disconnect();
    }

    /// Executes one deferred operation, synchronously, on this actor. This
    /// is the only way other actors mutate this connection's state. A packet
    /// sent to a disconnected connection is dropped; nothing leaves
    /// `Disconnected`.
    pub fn run_op(&mut self, op: ConnectionOp)
        requires
            connection_op_wf(op),
        ensures
            final(self).in_buf() == old(self).in_buf(),
            final(self).spec_state().protocol == old(self).spec_state().protocol,
            old(self).spec_state().phase == Phase::Disconnected ==> final(self).spec_state().phase
                == Phase::Disconnected,
            match op {
                ConnectionOp::SendPacket { packet_id, payload } => {
                    &&& final(self).spec_state() == old(self).spec_state()
                    &&& final(self).out_buf() == if old(self).spec_state().phase
                        == Phase::Disconnected {
                        old(self).out_buf()
                    } else {
                        old(self).out_buf() + frame_enc(packet_id, payload@)
                    }
                },
                ConnectionOp::ResetKeepAlive { time } => {
                    &&& final(self).spec_state().keepalive == time
                    &&& final(self).spec_state().phase == old(self).spec_state().phase
                    &&& final(self).out_buf() == old(self).out_buf()
                },
                ConnectionOp::Disconnect { reason } => {
                    &&& final(self).spec_state().phase == Phase::Disconnected
                    &&& final(self).spec_state().keepalive == old(self).spec_state().keepalive
                    &&& final(self).out_buf() == old(self).out_buf()
                },
            },
    {
        match op {
            ConnectionOp::SendPacket { packet_id, payload } => {
                if !matches!(self.state.phase, Phase::Disconnected) {
                    crate::frame::write_frame(&mut self.output, packet_id, payload.as_slice());
                }
            },
            ConnectionOp::ResetKeepAlive { time } => {
                self.state.keepalive = time;
            },
            ConnectionOp::Disconnect { reason: _ } => {
                self.state.force_disconnect();
            },
        }
    }

    /// The buffered outbound bytes the loop should write next.
    pub fn outgoing(&self) -> (r: &Vec<u8>)
        ensures
            r@ == self.out_buf(),
    {
        &self.output
    }

    /// The transport accepted the first `n` outbound bytes: drop them.
    pub fn consume_output(&mut self, n: usize)
        requires
            n <= old(self).out_buf().len(),
        ensures
            final(self).out_buf() == old(self).out_buf().skip(n as int),
            final(self).in_buf() == old(self).in_buf(),
            final(self).spec_state() == old(self).spec_state(),
    {
        let rest = self.output.split_off(n);
        self.output = rest;
    }

    /// The one graceful exit of the loop after a disconnect was requested
    /// while data was still in flight: disconnected, and fully drained.
    pub fn should_close(&self) -> (r: bool)
        ensures
            r == (self.spec_state().phase == Phase::Disconnected && self.out_buf().len() == 0),
    {
        matches!(self.state.phase, Phase::Disconnected) && self.output.len() == 0
    }
}

/// Law: a frame fed in two parts is dispatched exactly once, only when it is
/// complete — the first part alone stays buffered and yields nothing; with
/// the remainder, exactly the one frame comes out and nothing stays behind.
pub proof fn lemma_split_frame_single_dispatch(id: i32, payload: Seq<u8>, k: int)
    requires
        payload.len() + 5 <= 0x7fffffff,
        0 <= k < frame_enc(id, payload).len(),
    ensures
        ({
            let part = frame_enc(id, payload).take(k);
            &&& drain_frames(part).0 == Seq::<(i32, Seq<u8>)>::empty()
            &&& drain_frames(part).1 == part
            &&& !drain_frames(part).2
        }),
        ({
            let whole = frame_enc(id, payload).take(k) + frame_enc(id, payload).skip(k);
            &&& drain_frames(whole).0 == seq![(id, payload)]
            &&& drain_frames(whole).1 == Seq::<u8>::empty()
            &&& !drain_frames(whole).2
        }),
{
    let t = frame_enc(id, payload);
    lemma_frame_enc_prefix(id, payload, k);
    assert(t.take(k) + t.skip(k) =~= t);
    lemma_frame_enc_parses(id, payload, Seq::<u8>::empty());
    assert(t + Seq::<u8>::empty() =~= t);
    assert(frame_total_len(t) == t.len());
    assert(t.skip(frame_total_len(t)) =~= Seq::<u8>::empty());
    assert(drain_frames(Seq::<u8>::empty()) == (Seq::<(i32, Seq<u8>)>::empty(), Seq::<u8>::empty(), false));
    assert(drain_frames(t).0 =~= seq![(id, payload)]);
}

} // verus!

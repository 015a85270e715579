//! Task bridge: actors mutate each other only through deferred operations.
//! A handle is a cloneable, non-owning capability to enqueue an operation
//! addressed to one specific actor; the owning actor's loop is the only
//! consumer. Enqueue never blocks and never runs the operation inline, and
//! an enqueue onto a closed queue is silently discarded by design —
//! fire-and-forget, since races against a connection that just closed are
//! expected and harmless.

use vstd::prelude::*;
use tokio::sync::mpsc::error::SendError;
use tokio::sync::mpsc::UnboundedSender;

verus! {

#[verifier::external_type_specification]
#[verifier::external_body]
#[verifier::reject_recursive_types(T)]
pub struct ExUnboundedSender<T>(UnboundedSender<T>);

#[verifier::external_type_specification]
#[verifier::reject_recursive_types(T)]
pub struct ExSendError<T>(SendError<T>);

/// Relies on tokio's unbounded mpsc `send`: it never blocks, succeeds unless
/// the receiving side is gone, and on failure hands the message back inside
/// the error.
pub assume_specification<T>[ UnboundedSender::<T>::send ](
    s: &UnboundedSender<T>,
    message: T,
) -> (r: Result<(), SendError<T>>)
    ensures
        r matches Err(e) ==> e.0 == message,
;

/// Relies on tokio's unbounded mpsc sender `Clone`: the clone is another
/// producer handle onto the same queue. Nothing about the handle's value is
/// claimed; cloning only lets handles be shared across execution contexts.
pub assume_specification<T>[ <UnboundedSender<T> as Clone>::clone ](
    s: &UnboundedSender<T>,
) -> UnboundedSender<T>;

/// A deferred operation addressed to one connection actor. Single
/// invocation: moved into the queue once, executed once by the owning
/// connection's loop, then dropped.
#[derive(Debug)]
pub enum ConnectionOp {
    /// Frame and buffer an outbound packet.
    SendPacket { packet_id: i32, payload: Vec<u8> },
    /// Record `time` as the moment of the last keepalive exchange.
    ResetKeepAlive { time: u64 },
    /// Ask the connection to disconnect, with a human-readable reason.
    Disconnect { reason: String },
}

/// What every executable connection operation satisfies: a packet payload
/// must fit a frame whose length prefix is a 32-bit varint.
pub open spec fn connection_op_wf(op: ConnectionOp) -> bool {
    match op {
        ConnectionOp::SendPacket { packet_id, payload } => payload@.len() + 5 <= 0x7fffffff,
        _ => true,
    }
}

/// Cloneable handle to one connection actor's task queue. Does not own the
/// connection: many handles may outlive it, and enqueueing onto a closed
/// queue silently discards the operation.
#[derive(Debug, Clone)]
pub struct ConnectionWrapper {
    link: UnboundedSender<ConnectionOp>,
}

impl ConnectionWrapper {
    /// Wraps the producer end of a connection's task queue.
    pub fn new(link: UnboundedSender<ConnectionOp>) -> (r: ConnectionWrapper) {
        ConnectionWrapper { link }
    }

    /// Asks the connection to record `time` as its last keepalive moment.
    pub fn reset_keep_alive(&self, time: u64) {
        let _ = self.link.send(ConnectionOp::ResetKeepAlive { time });
    }

    /// Asks the connection to frame and send one packet.
    pub fn send_packet(&self, packet_id: i32, payload: Vec<u8>) {
        let _ = self.link.send(ConnectionOp::SendPacket { packet_id, payload });
    }

    /// Enqueues an arbitrary deferred operation for the connection.
    pub fn execute_sync(&self, op: ConnectionOp) {
        let _ = self.link.send(op);
    }
}

// ----------------------------------------------------------------------
// The queue an actor consumes, and the ordering it guarantees.
// ----------------------------------------------------------------------

/// The deferred-operation queue an actor owns and drains: strictly first in,
/// first out. The wire handles above feed such a queue; the owning actor is
/// its only consumer.
#[derive(Debug)]
pub struct TaskQueue<T> {
    items: Vec<T>,
}

impl<T> View for TaskQueue<T> {
    type V = Seq<T>;

    closed spec fn view(&self) -> Seq<T> {
        self.items@
    }
}

impl<T> TaskQueue<T> {
    /// An empty queue.
    pub fn new() -> (r: TaskQueue<T>)
        ensures
            r@ == Seq::<T>::empty(),
    {
        TaskQueue { items: Vec::new() }
    }

    /// How many operations wait.
    pub fn len(&self) -> (r: usize)
        ensures
            r == self@.len(),
    {
        self.items.len()
    }

    /// Adds an operation at the back.
    pub fn enqueue(&mut self, op: T)
        ensures
            final(self)@ == old(self)@.push(op),
    {
        self.items.push(op);
    }

    /// Removes and returns the oldest operation, if any: delivery order is
    /// enqueue order.
    pub fn dequeue(&mut self) -> (r: Option<T>)
        ensures
            old(self)@.len() == 0 ==> r is None && final(self)@ == old(self)@,
            old(self)@.len() > 0 ==> r == Some(old(self)@[0]) && final(self)@ == old(
                self,
            )@.drop_first(),
    {
        if self.items.len() == 0 {
            None
        } else {
            let x = self.items.remove(0);
            assert(self.items@ =~= old(self)@.drop_first());
            Some(x)
        }
    }
}

/// Law: delivery order is enqueue order. After `k` dequeues a queue that
/// held `q` holds `q.skip(k)` (each dequeue drops the first element, by its
/// contract), so the next dequeue returns exactly `q[k]`: what one handle
/// enqueued as `[a, b, c]` is executed as `a`, then `b`, then `c`.
pub proof fn lemma_fifo_delivery<T>(q: Seq<T>, k: int)
    requires
        0 <= k < q.len(),
    ensures
        q.skip(k)[0] == q[k],
        q.skip(k).drop_first() == q.skip(k + 1),
{
    assert(q.skip(k).drop_first() =~= q.skip(k + 1));
}

/// `s` merges `a` and `b`, keeping the internal order of each: how two
/// producer handles' operations can land in one queue.
pub open spec fn is_interleaving<T>(s: Seq<T>, a: Seq<T>, b: Seq<T>) -> bool
    decreases s.len(),
{
    if s.len() == 0 {
        a.len() == 0 && b.len() == 0
    } else {
        ||| (a.len() > 0 && a[0] == s[0] && is_interleaving(s.drop_first(), a.drop_first(), b))
        ||| (b.len() > 0 && b[0] == s[0] && is_interleaving(s.drop_first(), a, b.drop_first()))
    }
}

/// `a` occurs inside `s` in order, not necessarily contiguously.
pub open spec fn is_subsequence_of<T>(a: Seq<T>, s: Seq<T>) -> bool
    decreases s.len(),
{
    if a.len() == 0 {
        true
    } else if s.len() == 0 {
        false
    } else {
        ||| (a[0] == s[0] && is_subsequence_of(a.drop_first(), s.drop_first()))
        ||| is_subsequence_of(a, s.drop_first())
    }
}

/// Law: two handles enqueueing concurrently interleave in some order, but
/// each handle's own sequence is preserved — whatever interleaving the queue
/// holds, it delivers each producer's operations in that producer's order.
pub proof fn lemma_interleaving_preserves_order<T>(s: Seq<T>, a: Seq<T>, b: Seq<T>)
    requires
        is_interleaving(s, a, b),
    ensures
        is_subsequence_of(a, s),
        is_subsequence_of(b, s),
    decreases s.len(),
{
    if s.len() == 0 {
    } else if a.len() > 0 && a[0] == s[0] && is_interleaving(s.drop_first(), a.drop_first(), b) {
        lemma_interleaving_preserves_order(s.drop_first(), a.drop_first(), b);
    } else {
        lemma_interleaving_preserves_order(s.drop_first(), a, b.drop_first());
    }
}

} // verus!

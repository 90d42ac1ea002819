//! A single-use, single-message handoff channel between exactly two threads.
//!
//! The concurrent implementation pairs an uninitialized message slot with an
//! atomic ready flag: the sender writes the slot, publishes readiness with a
//! release store, and wakes the recorded receiving thread; the receiver
//! test-and-clears the flag with acquire ordering, suspending in a retry
//! loop until the flag is observed set, then moves the message out. The flag
//! is the single source of truth — the wake is only a hint — so the handoff
//! serializes into the three-state machine modelled here: empty, sent, and
//! consumed (empty again, tokens spent). Each capability token is consumed
//! by its one operation, so a second send or receive through the same token
//! is unrepresentable. Waking and suspending themselves are scheduling
//! actions of the surrounding program: `send` decides whom to wake and
//! returns that thread's identity for the caller to act on.

use vstd::prelude::*;

verus! {

/// Identity of a thread, as recorded at `split` time and compared again at
/// `receive` time. The surrounding program supplies it; the channel only
/// stores and compares it.
#[derive(PartialEq, Eq, Structural, Clone, Copy, Debug)]
pub struct ThreadId {
    pub id: u64,
}

/// A single-message handoff channel: one ready flag and one slot that holds
/// a message only between a send and the matching receive.
pub struct OneShotChannel<T> {
    is_ready: bool,
    message: Option<T>,
}

/// Single-use capability to send the one message, bound to the identity of
/// the thread that will receive it so that the sender knows whom to wake.
pub struct Sender {
    receiver_thread: ThreadId,
}

/// Single-use capability to receive the one message, usable only on the
/// thread recorded when the pair was split off.
pub struct Receiver {
    thread: ThreadId,
}

impl Sender {
    /// The thread that the matching receiver runs on.
    pub closed spec fn receiver_thread(&self) -> ThreadId {
        self.receiver_thread
    }

    /// Consume the sender and transmit the one message: write the slot —
    /// safe, because no receiver looks at the slot before readiness is
    /// published — then set the ready flag, publishing the message to the
    /// receiver. The returned identity is the thread to wake, the one
    /// recorded at `split`; the wake itself is a scheduling hint that the
    /// surrounding program delivers, and the flag stays authoritative.
    pub fn send<T>(self, channel: &mut OneShotChannel<T>, message: T) -> (wake: ThreadId)
        requires
            old(channel).wf(),
            !old(channel).ready(),
        ensures
            final(channel).wf(),
            final(channel).ready(),
            final(channel).msg() == message,
            wake == self.receiver_thread(),
    {
        channel.message = Some(message);
        channel.is_ready = true;
        self.receiver_thread
    }
}

impl Receiver {
    /// The one thread this receiver may be used on.
    pub closed spec fn thread(&self) -> ThreadId {
        self.thread
    }

    /// Consume the receiver and take the one message, verbatim as it was
    /// sent, clearing the ready flag. The concurrent receive blocks until
    /// readiness is observed, so the serialized receive runs once the
    /// message is there: a receive with the flag still clear has no result
    /// yet and is excluded. `current` is the identity of the calling thread;
    /// the receiver may only be used on the thread it was created on.
    pub fn receive<T>(self, channel: &mut OneShotChannel<T>, current: ThreadId) -> (message: T)
        requires
            old(channel).wf(),
            old(channel).ready(),
            current == self.thread(),
        ensures
            final(channel).wf(),
            !final(channel).ready(),
            message == old(channel).msg(),
    {
        channel.is_ready = false;
        let taken = channel.message.take();
        taken.unwrap()
    }
}

impl<T> OneShotChannel<T> {
    /// Whether a message has been sent and not yet received.
    pub closed spec fn ready(&self) -> bool {
        self.is_ready
    }

    /// The flag tells the truth about the slot: it is set exactly while the
    /// slot holds a message.
    pub closed spec fn wf(&self) -> bool {
        self.is_ready <==> self.message is Some
    }

    /// The message in the slot, meaningful while `ready()` holds.
    pub closed spec fn msg(&self) -> T
        recommends
            self.ready(),
    {
        self.message->0
    }

    /// A fresh channel: slot empty, flag clear.
    pub fn new() -> (channel: Self)
        ensures
            channel.wf(),
            !channel.ready(),
    {
        OneShotChannel { is_ready: false, message: None }
    }

    /// Reset the channel to empty and hand out exactly one sender/receiver
    /// pair for one message lifecycle. `receiver_thread` is the identity of
    /// the thread that will call `receive`: the sender is bound to it so it
    /// can wake that exact thread, and the receiver is restricted to it. A
    /// message still in the slot from an abandoned lifecycle is destroyed by
    /// the reset, exactly as on teardown.
    pub fn split(&mut self, receiver_thread: ThreadId) -> (pair: (Sender, Receiver))
        ensures
            final(self).wf(),
            !final(self).ready(),
            pair.0.receiver_thread() == receiver_thread,
            pair.1.thread() == receiver_thread,
    {
        self.is_ready = false;
        self.message = None;
        (Sender { receiver_thread }, Receiver { thread: receiver_thread })
    }

    /// Tear the channel down. A message that was sent but never received is
    /// handed back so that its destruction runs with the caller instead of
    /// leaking; if no message is pending, nothing is there to destroy.
    pub fn close(self) -> (leftover: Option<T>)
        requires
            self.wf(),
        ensures
            self.ready() ==> leftover == Some(self.msg()),
            !self.ready() ==> leftover is None,
    {
        self.message
    }
}

/// One step of a channel's lifecycle, as the serialized handoff runs it: a
/// split handing out a fresh token pair, the send through the live sender,
/// or the receive through the live receiver.
pub enum ChannelOp {
    Split,
    Send,
    Receive,
}

/// The channel's standing after a history: whether a message is pending,
/// and which of the two single-use tokens of the latest split are still
/// unconsumed.
pub struct ChannelPhase {
    pub ready: bool,
    pub sender_live: bool,
    pub receiver_live: bool,
}

/// Which operations a phase admits: a split is always available and renews
/// both tokens; a send needs the live sender and an empty slot, and spends
/// the sender; a receive needs the live receiver and a pending message, and
/// spends the receiver.
pub open spec fn step_allowed(phase: ChannelPhase, op: ChannelOp) -> bool {
    match op {
        ChannelOp::Split => true,
        ChannelOp::Send => phase.sender_live && !phase.ready,
        ChannelOp::Receive => phase.receiver_live && phase.ready,
    }
}

/// The phase reached by one operation.
pub open spec fn step(phase: ChannelPhase, op: ChannelOp) -> ChannelPhase {
    match op {
        ChannelOp::Split => ChannelPhase { ready: false, sender_live: true, receiver_live: true },
        ChannelOp::Send => ChannelPhase {
            ready: true,
            sender_live: false,
            receiver_live: phase.receiver_live,
        },
        ChannelOp::Receive => ChannelPhase {
            ready: false,
            sender_live: phase.sender_live,
            receiver_live: false,
        },
    }
}

/// The phase after a whole history, from the fresh channel with no tokens
/// outstanding.
pub open spec fn phase_after(ops: Seq<ChannelOp>) -> ChannelPhase
    decreases ops.len(),
{
    if ops.len() == 0 {
        ChannelPhase { ready: false, sender_live: false, receiver_live: false }
    } else {
        step(phase_after(ops.drop_last()), ops.last())
    }
}

/// A history is admissible when every operation was admitted by the phase
/// it ran in.
pub open spec fn history_admissible(ops: Seq<ChannelOp>) -> bool {
    forall|i: int|
        0 <= i < ops.len() ==> step_allowed(phase_after(#[trigger] ops.take(i)), ops[i])
}

/// However a channel has been used, a fresh split supports exactly one more
/// full send/receive cycle: extending any admissible history by a split,
/// the send, and the receive is admissible again.
pub proof fn lemma_fresh_split_supports_cycle(ops: Seq<ChannelOp>)
    requires
        history_admissible(ops),
    ensures
        history_admissible(
            ops + seq![ChannelOp::Split, ChannelOp::Send, ChannelOp::Receive],
        ),
{
    let ext = ops + seq![ChannelOp::Split, ChannelOp::Send, ChannelOp::Receive];
    let n = ops.len() as int;
    assert(ext.len() == n + 3);
    assert forall|i: int| 0 <= i < ext.len() implies step_allowed(
        phase_after(#[trigger] ext.take(i)),
        ext[i],
    ) by {
        if i < n {
            assert(ext.take(i) =~= ops.take(i));
            assert(ext[i] == ops[i]);
            assert(step_allowed(phase_after(ops.take(i)), ops[i]));
        } else if i == n {
            assert(ext[i] is Split);
        } else if i == n + 1 {
            assert(ext[i] is Send);
            assert(ext.take(i) =~= ops.push(ChannelOp::Split));
            assert(ops.push(ChannelOp::Split).drop_last() =~= ops);
            assert(phase_after(ext.take(i)) == step(phase_after(ops), ChannelOp::Split));
        } else {
            assert(ext[i] is Receive);
            assert(ext.take(i) =~= ops.push(ChannelOp::Split).push(ChannelOp::Send));
            assert(ops.push(ChannelOp::Split).push(ChannelOp::Send).drop_last() =~= ops.push(
                ChannelOp::Split,
            ));
            assert(ops.push(ChannelOp::Split).drop_last() =~= ops);
            assert(phase_after(ops.push(ChannelOp::Split)) == step(
                phase_after(ops),
                ChannelOp::Split,
            ));
            assert(phase_after(ext.take(i)) == step(
                step(phase_after(ops), ChannelOp::Split),
                ChannelOp::Send,
            ));
        }
    }
}

/// The sender token is spent by its send: once the live sender has been
/// consumed, no further send is admitted until a fresh split renews the
/// pair — the message slot is written at most once per token pair.
pub proof fn lemma_send_token_single_use(ops: Seq<ChannelOp>, i: int, j: int)
    requires
        history_admissible(ops),
        0 <= i < j < ops.len(),
        ops[i] is Send,
        ops[j] is Send,
    ensures
        exists|k: int| i < k < j && #[trigger] ops[k] is Split,
{
    if forall|k: int| i < k < j ==> !(#[trigger] ops[k] is Split) {
        lemma_sender_stays_spent(ops, i + 1, j);
        assert(step_allowed(phase_after(ops.take(j)), ops[j]));
        assert(false);
    }
}

/// The receiver token is likewise spent by its receive: once the live
/// receiver has been consumed, no further receive is admitted until a fresh
/// split renews the pair — the message slot is read at most once per token
/// pair.
pub proof fn lemma_receive_token_single_use(ops: Seq<ChannelOp>, i: int, j: int)
    requires
        history_admissible(ops),
        0 <= i < j < ops.len(),
        ops[i] is Receive,
        ops[j] is Receive,
    ensures
        exists|k: int| i < k < j && #[trigger] ops[k] is Split,
{
    if forall|k: int| i < k < j ==> !(#[trigger] ops[k] is Split) {
        lemma_receiver_stays_spent(ops, i + 1, j);
        assert(step_allowed(phase_after(ops.take(j)), ops[j]));
        assert(false);
    }
}

/// Helper: while no split occurs, a spent receiver stays spent.
proof fn lemma_receiver_stays_spent(ops: Seq<ChannelOp>, from: int, to: int)
    requires
        0 < from <= to <= ops.len(),
        ops[from - 1] is Receive,
        forall|k: int| from <= k < to ==> !(#[trigger] ops[k] is Split),
    ensures
        !phase_after(ops.take(to)).receiver_live,
    decreases to - from,
{
    if to == from {
        assert(ops.take(to).drop_last() =~= ops.take(to - 1));
        assert(ops.take(to).last() == ops[from - 1]);
    } else {
        lemma_receiver_stays_spent(ops, from, to - 1);
        assert(ops.take(to).drop_last() =~= ops.take(to - 1));
        assert(ops.take(to).last() == ops[to - 1]);
    }
}

/// Helper: while no split occurs, a spent sender stays spent.
proof fn lemma_sender_stays_spent(ops: Seq<ChannelOp>, from: int, to: int)
    requires
        0 < from <= to <= ops.len(),
        ops[from - 1] is Send,
        forall|k: int| from <= k < to ==> !(#[trigger] ops[k] is Split),
    ensures
        !phase_after(ops.take(to)).sender_live,
    decreases to - from,
{
    if to == from {
        assert(ops.take(to).drop_last() =~= ops.take(to - 1));
        assert(ops.take(to).last() == ops[from - 1]);
    } else {
        lemma_sender_stays_spent(ops, from, to - 1);
        assert(ops.take(to).drop_last() =~= ops.take(to - 1));
        assert(ops.take(to).last() == ops[to - 1]);
    }
}

} // verus!

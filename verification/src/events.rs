//! Events emitted by the copy engine and consumed by the GUI and the
//! telemetry, carried over a bounded channel.

use crossbeam_channel::{Receiver, RecvError, Sender, TryRecvError, TrySendError};
use vstd::prelude::*;

verus! {

/// Events emitted by the copy engine.
#[derive(Debug, Clone)]
pub enum CopyEvent {
    FileStarted { file: String, total_bytes: u64 },
    FileCompleted { file: String, bytes_copied: u64, elapsed_ms: u64 },
    Error { file: String, error: String },
    Finished { total_files: u64, total_bytes: u64, elapsed_ms: u64, errors: u64 },
    Paused,
    Resumed,
    CancelRequested,
}

#[verifier::external_type_specification]
#[verifier::external_body]
#[verifier::reject_recursive_types(T)]
pub struct ExSender<T>(Sender<T>);

/// `<Sender<T> as Clone>::clone` (outside): another sender for the same
/// channel; nothing about the channel is stated.
pub assume_specification<T>[ <Sender<T> as Clone>::clone ](s: &Sender<T>) -> Sender<T>;

#[verifier::external_type_specification]
#[verifier::external_body]
#[verifier::reject_recursive_types(T)]
pub struct ExReceiver<T>(Receiver<T>);

#[verifier::external_type_specification]
#[verifier::external_body]
pub struct ExRecvError(RecvError);

#[verifier::external_type_specification]
#[verifier::external_body]
pub struct ExTryRecvError(TryRecvError);

/// What a non-blocking receive found.
#[derive(Debug)]
pub enum Received<T> {
    Item(T),
    Empty,
    Disconnected,
}

/// The largest capacity asked of an event channel. `crossbeam_channel`
/// panics when the slots of a bounded channel cannot be laid out; one slot
/// of `CopyEvent` takes well under 256 bytes, so this many of them always
/// can.
pub open spec fn max_event_capacity() -> int {
    isize::MAX / 256
}

/// `crossbeam_channel::bounded` (outside): a new channel of capacity `cap`
/// for copy events. Nothing is stated of its contents: other threads
/// share it.
#[verifier::external_body]
pub(crate) fn bounded_channel(cap: usize) -> (Sender<CopyEvent>, Receiver<CopyEvent>)
    requires
        cap <= max_event_capacity(),
{
    crossbeam_channel::bounded(cap)
}

/// `Sender::send` (outside): blocks while the channel is full, fails only
/// when every receiver is gone. The outcome depends on other threads.
#[verifier::external_body]
pub(crate) fn send_blocking<T>(tx: &Sender<T>, value: T) -> (r: bool) {
    tx.send(value).is_ok()
}

/// `Receiver::recv` (outside): blocks until an item arrives or every
/// sender is gone. The outcome depends on other threads.
#[verifier::external_body]
pub(crate) fn recv_blocking<T>(rx: &Receiver<T>) -> Result<T, RecvError> {
    rx.recv()
}

/// `Receiver::try_recv` (outside), its error told apart by variant. The
/// outcome depends on other threads.
#[verifier::external_body]
pub(crate) fn try_receive<T>(rx: &Receiver<T>) -> Received<T> {
    match rx.try_recv() {
        Ok(v) => Received::Item(v),
        Err(TryRecvError::Empty) => Received::Empty,
        Err(TryRecvError::Disconnected) => Received::Disconnected,
    }
}

/// What a non-blocking send did.
#[derive(Debug, Clone, Copy, PartialEq, Eq, Structural)]
pub enum SendOutcome {
    Sent,
    /// The channel was full; the value was dropped.
    Full,
    /// Every receiver is gone.
    Disconnected,
}

/// `Sender::try_send` (outside), its error told apart by variant. The
/// outcome depends on other threads.
#[verifier::external_body]
pub(crate) fn try_send_to<T>(tx: &Sender<T>, value: T) -> SendOutcome {
    match tx.try_send(value) {
        Ok(()) => SendOutcome::Sent,
        Err(TrySendError::Full(_)) => SendOutcome::Full,
        Err(TrySendError::Disconnected(_)) => SendOutcome::Disconnected,
    }
}

/// The subscribers that stay after a broadcast with these outcomes: all but
/// the disconnected ones, in their order.
pub open spec fn still_subscribed<T>(subs: Seq<Sender<T>>, outcomes: Seq<SendOutcome>) -> Seq<Sender<T>>
    decreases subs.len(),
{
    if subs.len() == 0 {
        Seq::empty()
    } else {
        let rest = still_subscribed(subs.drop_last(), outcomes);
        if outcomes[subs.len() - 1] == SendOutcome::Disconnected {
            rest
        } else {
            rest.push(subs.last())
        }
    }
}

/// Offers a copy of `update` to every subscriber without blocking. A full
/// subscriber misses it and stays; a disconnected one is dropped. Returns
/// what each send did, in the order of the subscribers.
pub fn broadcast_to<T: Clone>(subscribers: &mut Vec<Sender<T>>, update: &T) -> (outcomes: Vec<SendOutcome>)
    ensures
        outcomes@.len() == old(subscribers)@.len(),
        final(subscribers)@ == still_subscribed(old(subscribers)@, outcomes@),
{
    let ghost all = subscribers@;
    let n: usize = subscribers.len();
    let mut pending: Vec<Sender<T>> = Vec::new();
    std::mem::swap(&mut pending, subscribers);
    let mut outcomes: Vec<SendOutcome> = Vec::new();
    let mut i: usize = 0;
    while pending.len() > 0
        invariant
            i <= all.len(),
            pending@ == all.skip(i as int),
            outcomes@.len() == i,
            subscribers@ == still_subscribed(all.take(i as int), outcomes@),
            all.len() == n,
        decreases pending@.len(),
    {
        assert(i < all.len());
        let tx = pending.remove(0);
        let outcome = try_send_to(&tx, update.clone());
        let ghost before = outcomes@;
        outcomes.push(outcome);
        proof {
            assert(all.take(i + 1).drop_last() =~= all.take(i as int));
            assert(all.take(i + 1).last() == tx);
            lemma_still_subscribed_prefix(all.take(i as int), before, outcomes@);
        }
        if outcome != SendOutcome::Disconnected {
            subscribers.push(tx);
        }
        i += 1;
        proof {
            assert(pending@ =~= all.skip(i as int));
        }
    }
    proof {
        assert(all.take(i as int) =~= all);
    }
    outcomes
}

proof fn lemma_still_subscribed_prefix<T>(subs: Seq<Sender<T>>, a: Seq<SendOutcome>, b: Seq<SendOutcome>)
    requires
        subs.len() <= a.len(),
        a.len() <= b.len(),
        forall|k: int| 0 <= k < a.len() ==> a[k] == b[k],
    ensures
        still_subscribed(subs, a) == still_subscribed(subs, b),
    decreases subs.len(),
{
    if subs.len() > 0 {
        lemma_still_subscribed_prefix(subs.drop_last(), a, b);
    }
}

/// Clonable sender half of the event channel.
#[derive(Debug, Clone)]
pub struct CoreSender {
    sender: Sender<CopyEvent>,
}

impl CoreSender {
    /// Sends an event; a channel without receivers drops it.
    pub fn send(&self, event: CopyEvent) {
        let _ = send_blocking(&self.sender, event);
    }
}

/// Receiver half of the event channel.
#[derive(Debug)]
pub struct CoreReceiver {
    receiver: Receiver<CopyEvent>,
}

impl CoreReceiver {
    /// Blocks until the next event arrives; fails once every sender is gone.
    pub fn recv(&self) -> Result<CopyEvent, RecvError> {
        recv_blocking(&self.receiver)
    }

    /// Takes the next event if one is waiting.
    pub fn try_recv(&self) -> Received<CopyEvent> {
        try_receive(&self.receiver)
    }
}

/// Creates a new event channel pair holding at most `cap` pending events.
pub fn channel(cap: usize) -> (CoreSender, CoreReceiver)
    requires
        cap <= max_event_capacity(),
{
    let (tx, rx) = bounded_channel(cap);
    (CoreSender { sender: tx }, CoreReceiver { receiver: rx })
}

} // verus!

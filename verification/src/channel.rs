//! The channels and the clock that the background work uses.
//!
//! What comes back from a send depends on the state of the channel, which
//! another thread changes; the library states what holds of every outcome and
//! decides on each outcome in verified code. Each sending handle keeps the
//! record of every value offered through it, so contracts can say what was
//! handed over, whatever became of it.
use vstd::prelude::*;

verus! {

#[verifier::external_type_specification]
#[verifier::external_body]
#[verifier::reject_recursive_types(T)]
pub struct ExSyncSender<T>(std::sync::mpsc::SyncSender<T>);

#[verifier::external_type_specification]
#[verifier::external_body]
#[verifier::reject_recursive_types(T)]
pub struct ExSender<T>(std::sync::mpsc::Sender<T>);

#[verifier::external_type_specification]
#[verifier::external_body]
pub struct ExInstant(std::time::Instant);

/// `SyncSender::clone`: another handle on the same queue. Nothing is claimed:
/// a sender is opaque here.
pub assume_specification<T>[ <std::sync::mpsc::SyncSender<T> as std::clone::Clone>::clone ](
    sender: &std::sync::mpsc::SyncSender<T>,
) -> (r: std::sync::mpsc::SyncSender<T>);

/// What became of a value offered to a bounded channel without waiting.
#[derive(Clone, Copy, Debug, PartialEq, Eq, Structural)]
pub enum SendOutcome {
    /// The value was queued.
    Sent,
    /// The queue was full; the value was dropped.
    Full,
    /// The receiving side is gone; the value was dropped.
    Disconnected,
}

/// `SyncSender::try_send`: offers `value` without blocking.
///
/// Nothing is claimed of which outcome comes back: it depends on how full the
/// queue is and whether the receiver still exists.
#[verifier::external_body]
fn try_send<T>(sender: &std::sync::mpsc::SyncSender<T>, value: T) -> (r: SendOutcome) {
    match sender.try_send(value) {
        Ok(()) => SendOutcome::Sent,
        Err(std::sync::mpsc::TrySendError::Full(_)) => SendOutcome::Full,
        Err(std::sync::mpsc::TrySendError::Disconnected(_)) => SendOutcome::Disconnected,
    }
}

/// `SyncSender::send`: waits for room in the queue; `true` when the value was
/// queued, `false` when the receiving side is gone.
///
/// Nothing is claimed of the result: it depends on the receiving thread.
#[verifier::external_body]
fn send_blocking<T>(sender: &std::sync::mpsc::SyncSender<T>, value: T) -> (r: bool) {
    sender.send(value).is_ok()
}

/// `Sender::send` of an unbounded channel: `true` when the value was queued,
/// `false` when the receiving side is gone.
///
/// Nothing is claimed of the result: it depends on the receiving thread.
#[verifier::external_body]
fn send_unbounded<T>(sender: &std::sync::mpsc::Sender<T>, value: T) -> (r: bool) {
    sender.send(value).is_ok()
}

/// `Instant::now`. Nothing is claimed of the time read.
#[verifier::external_body]
pub(crate) fn instant_now() -> (r: std::time::Instant) {
    std::time::Instant::now()
}

/// `Instant::elapsed`. Nothing is claimed of the duration: it depends on the
/// clock.
#[verifier::external_body]
pub(crate) fn elapsed_since(since: &std::time::Instant) -> (r: std::time::Duration) {
    since.elapsed()
}

/// `Duration::as_millis`: the whole milliseconds of `d`.
///
/// Nothing is claimed of the value, since the duration is opaque here.
#[verifier::external_body]
pub(crate) fn duration_millis(d: &std::time::Duration) -> (r: u128) {
    d.as_millis()
}


/// The sending side of a bounded queue, with the record of every value
/// offered through this handle, in order, whatever became of it, and of
/// whether each offer waited for room.
#[derive(Clone)]
#[verifier::reject_recursive_types(T)]
pub struct SyncQueue<T> {
    sender: std::sync::mpsc::SyncSender<T>,
    log: Ghost<Seq<(T, bool)>>,
}

impl<T> SyncQueue<T> {
    /// The values offered through this handle, oldest first.
    pub closed spec fn offered(&self) -> Seq<T> {
        Seq::new(self.log@.len(), |i: int| self.log@[i].0)
    }

    /// For each value offered through this handle, in the same order,
    /// whether the offer waited for room in the queue.
    pub closed spec fn waited(&self) -> Seq<bool> {
        Seq::new(self.log@.len(), |i: int| self.log@[i].1)
    }

    /// The two records have one entry per offer.
    pub proof fn lemma_records_match(&self)
        ensures
            self.offered().len() == self.waited().len(),
    {
    }

    /// The channel this handle sends on.
    pub closed spec fn sender(&self) -> std::sync::mpsc::SyncSender<T> {
        self.sender
    }

    /// A handle on the queue of `sender` that has offered nothing yet.
    pub fn new(sender: std::sync::mpsc::SyncSender<T>) -> (q: Self)
        ensures
            q.sender() == sender,
            q.offered() == Seq::<T>::empty(),
            q.waited() == Seq::<bool>::empty(),
    {
        let q = SyncQueue { sender, log: Ghost(Seq::empty()) };
        assert(q.offered() =~= Seq::<T>::empty());
        assert(q.waited() =~= Seq::<bool>::empty());
        q
    }

    /// Offers `value` without waiting; the outcome says whether it got in.
    pub fn try_offer(&mut self, value: T) -> (outcome: SendOutcome)
        ensures
            final(self).sender() == old(self).sender(),
            final(self).offered() == old(self).offered().push(value),
            final(self).waited() == old(self).waited().push(false),
    {
        let ghost v = value;
        let outcome = try_send(&self.sender, value);
        self.log = Ghost(self.log@.push((v, false)));
        assert(self.offered() =~= old(self).offered().push(v));
        assert(self.waited() =~= old(self).waited().push(false));
        outcome
    }

    /// Offers `value`, waiting for room; `true` when it got in, `false` when
    /// the receiving side is gone.
    pub fn offer_waiting(&mut self, value: T) -> (delivered: bool)
        ensures
            final(self).sender() == old(self).sender(),
            final(self).offered() == old(self).offered().push(value),
            final(self).waited() == old(self).waited().push(true),
    {
        let ghost v = value;
        let delivered = send_blocking(&self.sender, value);
        self.log = Ghost(self.log@.push((v, true)));
        assert(self.offered() =~= old(self).offered().push(v));
        assert(self.waited() =~= old(self).waited().push(true));
        delivered
    }
}

/// The sending side of an unbounded queue, with the record of every value
/// offered through this handle, in order, whatever became of it.
#[verifier::reject_recursive_types(T)]
pub struct Queue<T> {
    sender: std::sync::mpsc::Sender<T>,
    offered: Ghost<Seq<T>>,
}

impl<T> Queue<T> {
    /// The values offered through this handle, oldest first.
    pub closed spec fn offered(&self) -> Seq<T> {
        self.offered@
    }

    /// The channel this handle sends on.
    pub closed spec fn sender(&self) -> std::sync::mpsc::Sender<T> {
        self.sender
    }

    /// A handle on the queue of `sender` that has offered nothing yet.
    pub fn new(sender: std::sync::mpsc::Sender<T>) -> (q: Self)
        ensures
            q.sender() == sender,
            q.offered() == Seq::<T>::empty(),
    {
        Queue { sender, offered: Ghost(Seq::empty()) }
    }

    /// Offers `value`; `true` when it got in, `false` when the receiving side
    /// is gone.
    pub fn offer(&mut self, value: T) -> (delivered: bool)
        ensures
            final(self).sender() == old(self).sender(),
            final(self).offered() == old(self).offered().push(value),
    {
        let ghost v = value;
        let delivered = send_unbounded(&self.sender, value);
        self.offered = Ghost(self.offered@.push(v));
        delivered
    }
}

} // verus!

//! The event side of a communication session: records are batched, and
//! batches that the bounded event queue could not take are counted and
//! reported once the queue has room again.
use vstd::prelude::*;

use std::sync::mpsc::SyncSender;
use std::time::Instant;

use crate::channel::{duration_millis, elapsed_since, instant_now, SendOutcome, SyncQueue};
use crate::model::communication::{
    CommunicationDirection, CommunicationEvent, CommunicationEventEnvelope, CommunicationKind,
    CommunicationPeer, CommunicationRecord, CommunicationSessionState, PayloadFormat,
    MAX_RECORD_BATCH, RECORD_BATCH_INTERVAL_MS,
};

verus! {

/// `a + b`, saturated at `u64::MAX`.
pub open spec fn saturating_sum(a: u64, b: nat) -> u64 {
    if a + b > u64::MAX {
        u64::MAX
    } else {
        (a + b) as u64
    }
}

/// The drop counter after a batch of `batch` records was offered to the queue:
/// a batch that did not get in is added to it.
pub open spec fn dropped_after_batch(dropped: u64, batch: nat, delivered: bool) -> u64 {
    if batch == 0 || delivered {
        dropped
    } else {
        saturating_sum(dropped, batch)
    }
}

/// The drop counter after it was offered to the queue as a report: a report
/// that got in clears it. A counter of zero is not reported.
pub open spec fn dropped_after_report(dropped: u64, delivered: bool) -> u64 {
    if dropped > 0 && delivered {
        0
    } else {
        dropped
    }
}

/// The drop counter after a flush of `batch` pending records, for each fate of
/// the batch and of the report.
pub open spec fn dropped_after_flush(
    dropped: u64,
    batch: nat,
    batch_delivered: bool,
    report_delivered: bool,
) -> u64 {
    dropped_after_report(dropped_after_batch(dropped, batch, batch_delivered), report_delivered)
}

/// Nothing the queue refused goes unaccounted: a flush whose batch and report
/// both get in leaves no drop to report; a batch that does not get in is added
/// to the drop counter, saturating, and stays counted until a report gets in.
pub proof fn lemma_dropped_records_are_reported(dropped: u64, batch: nat)
    ensures
        dropped_after_flush(dropped, batch, true, true) == 0,
        dropped_after_flush(dropped, batch, false, false) == (if batch == 0 {
            dropped
        } else {
            saturating_sum(dropped, batch)
        }),
        dropped_after_flush(dropped, batch, true, false) == dropped,
        batch > 0 ==> dropped_after_flush(dropped, batch, false, true) == 0,
{
}

/// The drop counter after a batch of `batch` records met the queue.
pub fn drops_after_batch(dropped: u64, batch: usize, delivered: bool) -> (n: u64)
    ensures
        n == dropped_after_batch(dropped, batch as nat, delivered),
{
    if batch == 0 || delivered {
        dropped
    } else {
        dropped.saturating_add(batch as u64)
    }
}

/// The drop counter after a report of it met the queue.
pub fn drops_after_report(dropped: u64, delivered: bool) -> (n: u64)
    ensures
        n == dropped_after_report(dropped, delivered),
{
    if dropped > 0 && delivered {
        0
    } else {
        dropped
    }
}

/// `e` is an event of the session `kind`/`generation` carrying the batch
/// `records`.
pub open spec fn records_envelope(
    e: CommunicationEventEnvelope,
    kind: CommunicationKind,
    generation: u64,
    records: Seq<CommunicationRecord>,
) -> bool {
    &&& e.kind == kind
    &&& e.generation == generation
    &&& e.event matches CommunicationEvent::Records(v) && v@ == records
}

/// `e` is the session's report of `n` dropped records.
pub open spec fn dropped_envelope(e: CommunicationEventEnvelope, kind: CommunicationKind, generation: u64, n: u64) -> bool {
    &&& e.kind == kind
    &&& e.generation == generation
    &&& e.event == CommunicationEvent::QueueDropped(n)
}

/// `e` is the event `event` of the session `kind`/`generation`.
pub open spec fn session_envelope(
    e: CommunicationEventEnvelope,
    kind: CommunicationKind,
    generation: u64,
    event: CommunicationEvent,
) -> bool {
    &&& e.kind == kind
    &&& e.generation == generation
    &&& e.event == event
}

/// `offers` are the events a flush offers when `pending` records wait, the
/// drop counter is `dropped` and the batch met the queue as
/// `batch_delivered` says: the batch, when there is one, then the report of
/// the drop counter, when it is not zero after the batch.
pub open spec fn flush_offers(
    offers: Seq<CommunicationEventEnvelope>,
    kind: CommunicationKind,
    generation: u64,
    pending: Seq<CommunicationRecord>,
    dropped: u64,
    batch_delivered: bool,
) -> bool {
    let after_batch = dropped_after_batch(dropped, pending.len(), batch_delivered);
    let report_at: int = if pending.len() > 0 {
        1
    } else {
        0
    };
    &&& offers.len() == report_at + (if after_batch > 0 {
        1int
    } else {
        0int
    })
    &&& pending.len() > 0 ==> records_envelope(offers[0], kind, generation, pending)
    &&& after_batch > 0 ==> dropped_envelope(offers[report_at], kind, generation, after_batch)
}

/// The events offered went from `before` to `after`, and the drop counter to
/// `after_dropped`, by a flush whose batch and report met the queue as
/// `batch_delivered` and `report_delivered` say.
pub open spec fn flush_case(
    before: Seq<CommunicationEventEnvelope>,
    after: Seq<CommunicationEventEnvelope>,
    kind: CommunicationKind,
    generation: u64,
    pending: Seq<CommunicationRecord>,
    dropped: u64,
    after_dropped: u64,
    batch_delivered: bool,
    report_delivered: bool,
) -> bool {
    &&& after_dropped == dropped_after_flush(dropped, pending.len(), batch_delivered, report_delivered)
    &&& before.len() <= after.len()
    &&& after.take(before.len() as int) == before
    &&& flush_offers(after.skip(before.len() as int), kind, generation, pending, dropped, batch_delivered)
}

/// A flush took the events offered from `before` to `after` and the drop
/// counter from `dropped` to `after_dropped`, for some fate of its batch and
/// report.
pub open spec fn flush_step(
    before: Seq<CommunicationEventEnvelope>,
    after: Seq<CommunicationEventEnvelope>,
    kind: CommunicationKind,
    generation: u64,
    pending: Seq<CommunicationRecord>,
    dropped: u64,
    after_dropped: u64,
) -> bool {
    ||| flush_case(before, after, kind, generation, pending, dropped, after_dropped, true, true)
    ||| flush_case(before, after, kind, generation, pending, dropped, after_dropped, true, false)
    ||| flush_case(before, after, kind, generation, pending, dropped, after_dropped, false, true)
    ||| flush_case(before, after, kind, generation, pending, dropped, after_dropped, false, false)
}

/// Batches the records of one session and sends its events, stamped with the
/// session's kind and generation.
pub struct EventEmitter {
    kind: CommunicationKind,
    generation: u64,
    queue: SyncQueue<CommunicationEventEnvelope>,
    records: Vec<CommunicationRecord>,
    last_flush: Instant,
    dropped_records: u64,
    recorded: Ghost<Seq<CommunicationRecord>>,
}

impl EventEmitter {
    /// The records waiting for the next batch.
    pub closed spec fn pending(&self) -> Seq<CommunicationRecord> {
        self.records@
    }

    /// Records that were lost to a full queue and not yet reported.
    pub closed spec fn dropped(&self) -> u64 {
        self.dropped_records
    }

    pub closed spec fn spec_kind(&self) -> CommunicationKind {
        self.kind
    }

    pub closed spec fn spec_generation(&self) -> u64 {
        self.generation
    }

    /// Every event offered to the queue so far, oldest first, whatever became
    /// of it.
    pub closed spec fn sent(&self) -> Seq<CommunicationEventEnvelope> {
        self.queue.offered()
    }

    /// For each event offered, in the same order as [`EventEmitter::sent`],
    /// whether the offer waited for room in the queue.
    pub closed spec fn sent_waiting(&self) -> Seq<bool> {
        self.queue.waited()
    }

    /// The two records of offers have one entry per offer.
    pub proof fn lemma_offer_records_match(&self)
        ensures
            self.sent().len() == self.sent_waiting().len(),
    {
        self.queue.lemma_records_match();
    }

    /// Every record handed to [`EventEmitter::record`] so far, oldest first.
    pub closed spec fn recorded(&self) -> Seq<CommunicationRecord> {
        self.recorded@
    }

    /// A batch is never left full: it is sent as soon as it holds the batch
    /// limit.
    pub open spec fn wf(&self) -> bool {
        self.pending().len() < MAX_RECORD_BATCH
    }

    /// `self` is `before` after a flush, whatever the queue accepted: nothing
    /// waits, and the events offered are those of the flush.
    pub open spec fn flushed_from(&self, before: &EventEmitter) -> bool {
        &&& self.pending().len() == 0
        &&& flush_step(
            before.sent(),
            self.sent(),
            before.spec_kind(),
            before.spec_generation(),
            before.pending(),
            before.dropped(),
            self.dropped(),
        )
    }

    /// Nothing was sent and nothing changed in the batch or the counter.
    pub open spec fn unchanged_from(&self, before: &EventEmitter) -> bool {
        &&& self.pending() == before.pending()
        &&& self.dropped() == before.dropped()
        &&& self.sent() == before.sent()
    }

    /// `self` and `before` belong to the same session and hold the same
    /// records handed in.
    pub open spec fn same_session(&self, before: &EventEmitter) -> bool {
        &&& self.spec_kind() == before.spec_kind()
        &&& self.spec_generation() == before.spec_generation()
        &&& self.recorded() == before.recorded()
    }

    /// An emitter for the session `kind`/`generation` that sends on `sender`;
    /// nothing is pending, dropped, sent or recorded.
    pub fn new(kind: CommunicationKind, generation: u64, sender: SyncSender<CommunicationEventEnvelope>) -> (e: Self)
        ensures
            e.spec_kind() == kind,
            e.spec_generation() == generation,
            e.pending().len() == 0,
            e.dropped() == 0,
            e.sent().len() == 0,
            e.recorded().len() == 0,
            e.wf(),
    {
        EventEmitter {
            kind,
            generation,
            queue: SyncQueue::new(sender),
            records: Vec::with_capacity(MAX_RECORD_BATCH),
            last_flush: instant_now(),
            dropped_records: 0,
            recorded: Ghost(Seq::empty()),
        }
    }

    /// Records not yet reported as dropped.
    pub fn dropped_records(&self) -> (n: u64)
        ensures
            n == self.dropped(),
    {
        self.dropped_records
    }

    /// Number of records waiting for the next batch.
    pub fn pending_len(&self) -> (n: usize)
        ensures
            n == self.pending().len(),
    {
        self.records.len()
    }

    /// Reports a state change; pending records are flushed first, and the
    /// report waits for room in the queue.
    pub fn status(&mut self, state: CommunicationSessionState, detail: String)
        requires
            old(self).wf(),
        ensures
            final(self).wf(),
            final(self).same_session(&*old(self)),
            final(self).pending().len() == 0,
            final(self).sent().len() > old(self).sent().len(),
            flush_step(
                old(self).sent(),
                final(self).sent().drop_last(),
                old(self).spec_kind(),
                old(self).spec_generation(),
                old(self).pending(),
                old(self).dropped(),
                final(self).dropped(),
            ),
            session_envelope(
                final(self).sent().last(),
                old(self).spec_kind(),
                old(self).spec_generation(),
                CommunicationEvent::Status { state, detail },
            ),
            final(self).sent_waiting().len() == final(self).sent().len(),
            final(self).sent_waiting().last(),
    {
        self.flush(true);
        let envelope = CommunicationEventEnvelope {
            kind: self.kind,
            generation: self.generation,
            event: CommunicationEvent::Status { state, detail },
        };
        let ghost flushed = self.sent();
        let _ = self.queue.offer_waiting(envelope);
        assert(self.sent().drop_last() =~= flushed);
        proof {
            self.queue.lemma_records_match();
        }
    }

    /// Announces the current peers; pending records are flushed first, and an
    /// announcement that the queue cannot take is dropped.
    pub fn peers(&mut self, peers: Vec<CommunicationPeer>)
        requires
            old(self).wf(),
        ensures
            final(self).wf(),
            final(self).same_session(&*old(self)),
            final(self).pending().len() == 0,
            final(self).sent().len() > old(self).sent().len(),
            flush_step(
                old(self).sent(),
                final(self).sent().drop_last(),
                old(self).spec_kind(),
                old(self).spec_generation(),
                old(self).pending(),
                old(self).dropped(),
                final(self).dropped(),
            ),
            session_envelope(
                final(self).sent().last(),
                old(self).spec_kind(),
                old(self).spec_generation(),
                CommunicationEvent::Peers(peers),
            ),
    {
        self.flush(true);
        let ghost flushed = self.sent();
        let _ = self.try_event(CommunicationEvent::Peers(peers));
        assert(self.sent().drop_last() =~= flushed);
    }

    /// Adds a record to the batch, which is sent when it is full or old enough.
    pub fn record(
        &mut self,
        timestamp: String,
        direction: CommunicationDirection,
        endpoint: String,
        payload: Vec<u8>,
        payload_format: Option<PayloadFormat>,
        note: Option<String>,
    )
        requires
            old(self).wf(),
        ensures
            final(self).wf(),
            final(self).spec_kind() == old(self).spec_kind(),
            final(self).spec_generation() == old(self).spec_generation(),
            ({
                let added = CommunicationRecord {
                    timestamp,
                    direction,
                    endpoint,
                    payload,
                    payload_format,
                    note,
                };
                &&& final(self).recorded() == old(self).recorded().push(added)
                &&& {
                    ||| (final(self).pending() == old(self).pending().push(added) && final(self).dropped()
                        == old(self).dropped() && final(self).sent() == old(self).sent())
                    ||| (final(self).pending().len() == 0 && flush_step(
                        old(self).sent(),
                        final(self).sent(),
                        old(self).spec_kind(),
                        old(self).spec_generation(),
                        old(self).pending().push(added),
                        old(self).dropped(),
                        final(self).dropped(),
                    ))
                }
            }),
    {
        let added = CommunicationRecord { timestamp, direction, endpoint, payload, payload_format, note };
        self.recorded = Ghost(self.recorded@.push(added));
        self.records.push(added);
        self.flush(false);
    }

    /// Sends the pending records when `force` is set, when the batch is full or
    /// when the last flush is older than the batch interval; then reports the
    /// records dropped so far, if any.
    pub fn flush(&mut self, force: bool)
        requires
            old(self).pending().len() <= MAX_RECORD_BATCH,
        ensures
            final(self).wf(),
            final(self).same_session(&*old(self)),
            (force || old(self).pending().len() >= MAX_RECORD_BATCH) ==> final(self).flushed_from(
                &*old(self),
            ),
            final(self).flushed_from(&*old(self)) || final(self).unchanged_from(&*old(self)),
    {
        let elapsed = duration_millis(&elapsed_since(&self.last_flush));
        if !force && self.records.len() < MAX_RECORD_BATCH && elapsed < RECORD_BATCH_INTERVAL_MS as u128 {
            return;
        }
        let ghost start_sent = self.sent();
        let ghost batch = self.records@;
        let ghost start = self.dropped_records;
        let batch_len = self.records.len();
        let mut batch_delivered = true;
        if batch_len > 0 {
            let mut records: Vec<CommunicationRecord> = Vec::new();
            std::mem::swap(&mut records, &mut self.records);
            assert(records@ == batch);
            batch_delivered = self.try_event(CommunicationEvent::Records(records));
        }
        let ghost batch_sent = self.sent();
        self.dropped_records = drops_after_batch(self.dropped_records, batch_len, batch_delivered);
        let mut report_delivered = false;
        if self.dropped_records > 0 {
            let dropped = self.dropped_records;
            report_delivered = self.try_event(CommunicationEvent::QueueDropped(dropped));
        }
        self.dropped_records = drops_after_report(self.dropped_records, report_delivered);
        proof {
            let after = self.sent();
            let n = start_sent.len() as int;
            assert(after.take(n) =~= start_sent);
            let offers = after.skip(n);
            if batch_len > 0 {
                assert(offers[0] == after[n]);
                assert(after[n] == batch_sent[n]);
            }
            assert(flush_case(
                start_sent,
                after,
                self.kind,
                self.generation,
                batch,
                start,
                self.dropped_records,
                batch_delivered,
                report_delivered,
            ));
        }
        self.last_flush = instant_now();
    }

    /// Ends the session's event stream: flushes, then waits for room to report
    /// records still counted as dropped.
    pub fn finish(&mut self)
        requires
            old(self).wf(),
        ensures
            final(self).wf(),
            final(self).same_session(&*old(self)),
            final(self).pending().len() == 0,
            ({
                let k = old(self).spec_kind();
                let g = old(self).spec_generation();
                let after = final(self).sent();
                ||| (flush_step(old(self).sent(), after, k, g, old(self).pending(), old(self).dropped(), 0)
                    && final(self).dropped() == 0)
                ||| {
                    &&& after.len() > old(self).sent().len()
                    &&& after.last().event matches CommunicationEvent::QueueDropped(n) && n > 0
                        && dropped_envelope(after.last(), k, g, n) && flush_step(
                        old(self).sent(),
                        after.drop_last(),
                        k,
                        g,
                        old(self).pending(),
                        old(self).dropped(),
                        n,
                    ) && (final(self).dropped() == 0 || final(self).dropped() == n)
                    &&& final(self).sent_waiting().len() == after.len()
                    &&& final(self).sent_waiting().last()
                }
            }),
    {
        self.flush(true);
        if self.dropped_records == 0 {
            return;
        }
        let dropped = self.dropped_records;
        let envelope = CommunicationEventEnvelope {
            kind: self.kind,
            generation: self.generation,
            event: CommunicationEvent::QueueDropped(dropped),
        };
        let ghost flushed = self.sent();
        if self.queue.offer_waiting(envelope) {
            self.dropped_records = 0;
        }
        assert(self.sent().drop_last() =~= flushed);
        proof {
            self.queue.lemma_records_match();
        }
    }

    /// Offers an event of this session to the queue without waiting; `true`
    /// when it got in.
    fn try_event(&mut self, event: CommunicationEvent) -> (delivered: bool)
        ensures
            final(self).records == old(self).records,
            final(self).dropped_records == old(self).dropped_records,
            final(self).kind == old(self).kind,
            final(self).generation == old(self).generation,
            final(self).recorded == old(self).recorded,
            final(self).sent() == old(self).sent().push(
                CommunicationEventEnvelope { kind: old(self).kind, generation: old(self).generation, event },
            ),
    {
        let envelope = CommunicationEventEnvelope { kind: self.kind, generation: self.generation, event };
        match self.queue.try_offer(envelope) {
            SendOutcome::Sent => true,
            SendOutcome::Full => false,
            SendOutcome::Disconnected => false,
        }
    }
}

} // verus!

//! Decisions of the persistent TCP, UDP and serial sessions: which session an
//! event belongs to, where a payload goes, how much may wait to be written,
//! and what the interface is told when a command cannot be delivered.
use vstd::prelude::*;

use std::collections::VecDeque;

use crate::channel::{SendOutcome, SyncQueue};
use crate::emitter::EventEmitter;
use crate::model::communication::{
    CommunicationCommand, CommunicationDirection, CommunicationEventEnvelope, CommunicationKind,
    CommunicationPeer, CommunicationSendTarget, CommunicationSessionState, PayloadFormat,
    MAX_TCP_PENDING_BYTES, MAX_UDP_PAYLOAD_BYTES,
};
use crate::model::communication::{config_problem, CommunicationConfig, CommunicationEvent, CommunicationRecord, SerialPortDescriptor};
use crate::model::error::AppError;
use crate::process_tree::{is_permutation, lemma_lex_irreflexive, lemma_lex_transitive, lex_less, lex_lt};
use crate::text::chars_of;
use crate::text::{decimal, owned, push_decimal, push_str};

verus! {

/// The kind of a failed read, as far as a session tells kinds apart.
#[derive(Clone, Copy, Debug, PartialEq, Eq, Structural)]
pub enum ReadErrorKind {
    /// The read timed out.
    TimedOut,
    /// Nothing was available on a non-blocking handle.
    WouldBlock,
    /// Any other failure.
    Other,
}

/// A read error of a serial port that only means that no byte arrived in
/// time; any other error means the device is gone.
pub fn serial_read_should_wait(kind: ReadErrorKind) -> (wait: bool)
    ensures
        wait == (kind == ReadErrorKind::TimedOut || kind == ReadErrorKind::WouldBlock),
{
    match kind {
        ReadErrorKind::TimedOut => true,
        ReadErrorKind::WouldBlock => true,
        ReadErrorKind::Other => false,
    }
}

/// Whether the session may still be shown as active.
pub open spec fn is_live_state(state: CommunicationSessionState) -> bool {
    state != CommunicationSessionState::Stopped && state != CommunicationSessionState::Failed
}

/// A snapshot of an active session for the home page: its summary and its
/// latest state, kept only in the memory of this process.
#[derive(Clone, Debug)]
pub struct ActiveCommunicationSession {
    pub kind: CommunicationKind,
    pub summary: String,
    pub state: CommunicationSessionState,
    pub status_detail: String,
}

/// The sessions of `s` of kind `kind` that are still live, in their order.
pub open spec fn live_of_kind(s: Seq<ActiveCommunicationSession>, kind: CommunicationKind) -> Seq<
    ActiveCommunicationSession,
>
    decreases s.len(),
{
    if s.len() == 0 {
        Seq::empty()
    } else {
        let rest = live_of_kind(s.drop_last(), kind);
        if s.last().kind == kind && is_live_state(s.last().state) {
            rest.push(s.last())
        } else {
            rest
        }
    }
}

/// The live sessions of `s`, ordered by tool identifier (`serial-debug`,
/// `tcp-debug`, `udp-debug`); sessions of one kind keep their order.
pub open spec fn live_sessions_in_order(s: Seq<ActiveCommunicationSession>) -> Seq<ActiveCommunicationSession> {
    live_of_kind(s, CommunicationKind::Serial) + live_of_kind(s, CommunicationKind::Tcp) + live_of_kind(
        s,
        CommunicationKind::Udp,
    )
}

/// The sessions still live, ordered by tool identifier; the caller passes the
/// sessions whose thread is still running.
pub fn live_sessions(sessions: Vec<ActiveCommunicationSession>) -> (r: Vec<ActiveCommunicationSession>)
    ensures
        r@ == live_sessions_in_order(sessions@),
{
    let ghost all = sessions@;
    let mut rest = sessions;
    let mut serial: Vec<ActiveCommunicationSession> = Vec::new();
    let mut tcp: Vec<ActiveCommunicationSession> = Vec::new();
    let mut udp: Vec<ActiveCommunicationSession> = Vec::new();
    let ghost mut i: int = 0;
    while rest.len() > 0
        invariant
            0 <= i <= all.len(),
            rest@ == all.skip(i),
            serial@ == live_of_kind(all.take(i), CommunicationKind::Serial),
            tcp@ == live_of_kind(all.take(i), CommunicationKind::Tcp),
            udp@ == live_of_kind(all.take(i), CommunicationKind::Udp),
        decreases rest.len(),
    {
        let session = rest.remove(0);
        proof {
            assert(session == all[i]);
            assert(all.take(i + 1).drop_last() =~= all.take(i));
            assert(all.take(i + 1).last() == all[i]);
            assert(rest@ =~= all.skip(i + 1));
        }
        let live = session.state != CommunicationSessionState::Stopped && session.state
            != CommunicationSessionState::Failed;
        if live {
            match session.kind {
                CommunicationKind::Serial => serial.push(session),
                CommunicationKind::Tcp => tcp.push(session),
                CommunicationKind::Udp => udp.push(session),
            }
        }
        proof {
            i = i + 1;
        }
    }
    assert(all.take(i) =~= all);
    let mut r = serial;
    r.append(&mut tcp);
    r.append(&mut udp);
    assert(r@ =~= live_sessions_in_order(all));
    r
}

/// The generation of the current session of each kind, and the generation the
/// next session will get. Events are routed only when they come from the
/// current session of their kind; a replaced session's late events are
/// dropped.
#[derive(Clone, Debug)]
pub struct SessionGenerations {
    tcp: Option<u64>,
    udp: Option<u64>,
    serial: Option<u64>,
    next: u64,
}

impl SessionGenerations {
    /// The generation of the current session of `kind`, if one was started.
    pub closed spec fn current_of(&self, kind: CommunicationKind) -> Option<u64> {
        match kind {
            CommunicationKind::Tcp => self.tcp,
            CommunicationKind::Udp => self.udp,
            CommunicationKind::Serial => self.serial,
        }
    }

    /// The generation the next session will get.
    pub closed spec fn next_generation(&self) -> u64 {
        self.next
    }

    /// Every generation handed out is below the next one, until the counter
    /// has reached its limit.
    pub open spec fn wf(&self) -> bool {
        forall|kind: CommunicationKind| #[trigger] self.current_of(kind) is Some ==> (self.current_of(
            kind,
        ).unwrap() < self.next_generation() || self.next_generation() == u64::MAX)
    }

    /// No session has been started; the first one gets generation 1.
    pub fn new() -> (r: Self)
        ensures
            r.wf(),
            r.next_generation() == 1,
            forall|kind: CommunicationKind| #[trigger] r.current_of(kind) == None::<u64>,
    {
        SessionGenerations { tcp: None, udp: None, serial: None, next: 1 }
    }

    /// Starts a new session of `kind`: it gets the next generation, which
    /// becomes the current one of `kind`.
    pub fn begin(&mut self, kind: CommunicationKind) -> (generation: u64)
        requires
            old(self).wf(),
        ensures
            final(self).wf(),
            generation == old(self).next_generation(),
            final(self).current_of(kind) == Some(generation),
            forall|other: CommunicationKind| other != kind ==> #[trigger] final(self).current_of(other)
                == old(self).current_of(other),
            final(self).next_generation() == (if old(self).next_generation() == u64::MAX {
                u64::MAX
            } else {
                (old(self).next_generation() + 1) as u64
            }),
    {
        let generation = self.next;
        self.next = self.next.saturating_add(1);
        match kind {
            CommunicationKind::Tcp => self.tcp = Some(generation),
            CommunicationKind::Udp => self.udp = Some(generation),
            CommunicationKind::Serial => self.serial = Some(generation),
        }
        assert forall|k: CommunicationKind| #[trigger] self.current_of(k) is Some implies (self.current_of(
            k,
        ).unwrap() < self.next_generation() || self.next_generation() == u64::MAX) by {
            if k != kind {
                assert(old(self).current_of(k) == self.current_of(k));
            }
        }
        generation
    }

    /// The generation of the current session of `kind`.
    pub fn current(&self, kind: CommunicationKind) -> (r: Option<u64>)
        ensures
            r == self.current_of(kind),
    {
        match kind {
            CommunicationKind::Tcp => self.tcp,
            CommunicationKind::Udp => self.udp,
            CommunicationKind::Serial => self.serial,
        }
    }

    /// Whether `envelope` comes from the current session of its kind.
    pub fn accepts(&self, envelope: &CommunicationEventEnvelope) -> (b: bool)
        ensures
            b == (self.current_of(envelope.kind) == Some(envelope.generation)),
    {
        match self.current(envelope.kind) {
            Some(g) => g == envelope.generation,
            None => false,
        }
    }
}

/// The envelopes of `received` that come from the current session of their
/// kind in `g`, in the order they were received.
pub open spec fn routed_events(g: SessionGenerations, received: Seq<CommunicationEventEnvelope>) -> Seq<
    CommunicationEventEnvelope,
>
    decreases received.len(),
{
    if received.len() == 0 {
        Seq::empty()
    } else if g.current_of(received.last().kind) == Some(received.last().generation) {
        routed_events(g, received.drop_last()).push(received.last())
    } else {
        routed_events(g, received.drop_last())
    }
}

/// The state and detail of the last status report among `events`, if any.
pub open spec fn last_status(events: Seq<CommunicationEventEnvelope>) -> Option<
    (CommunicationSessionState, Seq<char>),
>
    decreases events.len(),
{
    if events.len() == 0 {
        None
    } else {
        match events.last().event {
            CommunicationEvent::Status { state, detail } => Some((state, detail@)),
            _ => last_status(events.drop_last()),
        }
    }
}

impl SessionGenerations {
    /// Routes the envelopes `received` from one session's event queue: those
    /// of a replaced session are dropped, the others are returned in the
    /// order received, and the session's shown `state` and `detail` become
    /// those of the last status report routed, if any.
    pub fn route_events(
        &self,
        received: Vec<CommunicationEventEnvelope>,
        state: &mut CommunicationSessionState,
        detail: &mut String,
    ) -> (routed: Vec<CommunicationEventEnvelope>)
        ensures
            routed@ == routed_events(*self, received@),
            match last_status(routed_events(*self, received@)) {
                Some((s, d)) => *final(state) == s && final(detail)@ == d,
                None => *final(state) == *old(state) && final(detail)@ == old(detail)@,
            },
    {
        let ghost all = received@;
        let total = received.len();
        let mut rest = received;
        let mut routed: Vec<CommunicationEventEnvelope> = Vec::new();
        let mut i: usize = 0;
        while rest.len() > 0
            invariant
                i + rest@.len() == all.len(),
                all.len() == total,
                rest@ == all.skip(i as int),
                routed@ == routed_events(*self, all.take(i as int)),
                match last_status(routed@) {
                    Some((s, d)) => *state == s && detail@ == d,
                    None => *state == *old(state) && detail@ == old(detail)@,
                },
            decreases rest@.len(),
        {
            let envelope = rest.remove(0);
            proof {
                assert(all.take(i + 1).drop_last() =~= all.take(i as int));
                assert(all.take(i + 1).last() == all[i as int]);
                assert(rest@ =~= all.skip(i + 1));
            }
            if self.accepts(&envelope) {
                match &envelope.event {
                    CommunicationEvent::Status { state: s, detail: d } => {
                        *state = *s;
                        *detail = d.clone();
                    },
                    _ => {},
                }
                let ghost before = routed@;
                routed.push(envelope);
                assert(routed@.drop_last() =~= before);
            }
            i = i + 1;
        }
        proof {
            assert(all.take(all.len() as int) =~= all);
        }
        routed
    }
}

/// Every routed event comes from the current session of its kind, and the
/// routed events keep the order in which they were received.
pub proof fn lemma_routed_events_are_current(g: SessionGenerations, received: Seq<CommunicationEventEnvelope>)
    ensures
        forall|k: int|
            0 <= k < routed_events(g, received).len() ==> g.current_of(
                (#[trigger] routed_events(g, received)[k]).kind,
            ) == Some(routed_events(g, received)[k].generation),
        routed_events(g, received).len() <= received.len(),
        received.len() > 0 && g.current_of(received.last().kind) == Some(received.last().generation)
            ==> routed_events(g, received).last() == received.last(),
    decreases received.len(),
{
    if received.len() > 0 {
        lemma_routed_events_are_current(g, received.drop_last());
    }
}

/// When a session of some kind is replaced, events that the replaced session
/// of that kind still sends are no longer routed, as long as the generation
/// counter has not reached its limit; events of the new session are.
pub proof fn lemma_replaced_session_is_silenced(
    before: SessionGenerations,
    after: SessionGenerations,
    kind: CommunicationKind,
    generation: u64,
)
    requires
        before.wf(),
        generation == before.next_generation(),
        before.next_generation() < u64::MAX,
        after.current_of(kind) == Some(generation),
    ensures
        before.current_of(kind) matches Some(old_generation) ==> after.current_of(kind) != Some(
            old_generation,
        ),
{
    assert(before.current_of(kind) is Some ==> before.current_of(kind).unwrap() < before.next_generation());
}

/// The message of a command that found no session.
pub open spec fn no_session_message() -> Seq<char> {
    "请先启动通信会话。"@
}

/// What a command sent to a session answers, by what became of it at the
/// session's queue.
pub open spec fn command_answer_is(r: Result<(), AppError>, outcome: SendOutcome) -> bool {
    match outcome {
        SendOutcome::Sent => r == Ok::<(), AppError>(()),
        SendOutcome::Full => r matches Err(AppError::QueueFull(m)) && m@ == "通信命令队列已满，请稍后重试。"@,
        SendOutcome::Disconnected => r matches Err(AppError::WorkerBusy(m)) && m@
            == "通信会话已停止，请重新连接。"@,
    }
}

/// What a stop request answers, by what became of it at the session's queue.
pub open spec fn stop_answer_is(r: Result<(), AppError>, outcome: SendOutcome) -> bool {
    match outcome {
        SendOutcome::Sent => r == Ok::<(), AppError>(()),
        SendOutcome::Full => r matches Err(AppError::QueueFull(m)) && m@
            == "通信命令队列已满，暂时无法提交停止请求。"@,
        SendOutcome::Disconnected => r matches Err(AppError::WorkerBusy(m)) && m@ == "通信会话已经停止。"@,
    }
}

/// The answer to a command that met `outcome` at the session's queue.
pub fn command_result(outcome: SendOutcome) -> (r: Result<(), AppError>)
    ensures
        command_answer_is(r, outcome),
{
    match outcome {
        SendOutcome::Sent => Ok(()),
        SendOutcome::Full => Err(AppError::QueueFull(owned("通信命令队列已满，请稍后重试。"))),
        SendOutcome::Disconnected => Err(AppError::WorkerBusy(owned("通信会话已停止，请重新连接。"))),
    }
}

/// The answer to a stop request that met `outcome` at the session's queue.
pub fn stop_result(outcome: SendOutcome) -> (r: Result<(), AppError>)
    ensures
        stop_answer_is(r, outcome),
{
    match outcome {
        SendOutcome::Sent => Ok(()),
        SendOutcome::Full => Err(AppError::QueueFull(owned("通信命令队列已满，暂时无法提交停止请求。"))),
        SendOutcome::Disconnected => Err(AppError::WorkerBusy(owned("通信会话已经停止。"))),
    }
}

/// Sends `command` to the session whose command queue is `session`, without
/// waiting; without a session the command is refused.
pub fn send_command(session: Option<&mut SyncQueue<CommunicationCommand>>, command: CommunicationCommand) -> (r:
    Result<(), AppError>)
    ensures
        match session {
            None => r matches Err(AppError::InvalidInput(m)) && m@ == no_session_message(),
            Some(q) => {
                &&& final(q).sender() == q.sender()
                &&& final(q).offered() == q.offered().push(command)
                &&& (command_answer_is(r, SendOutcome::Sent) || command_answer_is(r, SendOutcome::Full)
                    || command_answer_is(r, SendOutcome::Disconnected))
            },
        },
{
    match session {
        None => Err(AppError::InvalidInput(owned("请先启动通信会话。"))),
        Some(queue) => command_result(queue.try_offer(command)),
    }
}

/// Asks the session whose command queue is `session` to stop, without
/// waiting; without a session there is nothing to stop.
pub fn send_stop(session: Option<&mut SyncQueue<CommunicationCommand>>) -> (r: Result<(), AppError>)
    ensures
        match session {
            None => r == Ok::<(), AppError>(()),
            Some(q) => {
                &&& final(q).sender() == q.sender()
                &&& final(q).offered() == q.offered().push(CommunicationCommand::Stop)
                &&& (stop_answer_is(r, SendOutcome::Sent) || stop_answer_is(r, SendOutcome::Full)
                    || stop_answer_is(r, SendOutcome::Disconnected))
            },
        },
{
    match session {
        None => Ok(()),
        Some(queue) => stop_result(queue.try_offer(CommunicationCommand::Stop)),
    }
}

/// Least time between two announcements of changed peer counters, in
/// milliseconds.
pub const PEER_UPDATE_INTERVAL_MS: u64 = 100;

/// Whether a TCP server announces its peers now: at once when a client left,
/// otherwise when counters changed and the last announcement is at least
/// the update interval old.
pub fn peers_announcement_due(client_left: bool, counters_changed: bool, since_last_ms: u128) -> (due: bool)
    ensures
        due == (client_left || (counters_changed && since_last_ms >= PEER_UPDATE_INTERVAL_MS)),
{
    client_left || (counters_changed && since_last_ms >= PEER_UPDATE_INTERVAL_MS as u128)
}

/// Maximum number of clients a TCP server session keeps.
pub const MAX_TCP_SERVER_CLIENTS: usize = 32;

/// Whether a TCP server session with `clients` connected clients takes one
/// more.
pub fn accepts_new_client(clients: usize) -> (b: bool)
    ensures
        b == (clients < MAX_TCP_SERVER_CLIENTS),
{
    clients < MAX_TCP_SERVER_CLIENTS
}

/// Whether a payload sent to `target` goes to the TCP client `client_id`.
pub open spec fn spec_tcp_target_selects(target: CommunicationSendTarget, client_id: u64) -> bool {
    match target {
        CommunicationSendTarget::TcpClient(id) => client_id == id,
        CommunicationSendTarget::AllTcpClients => true,
        CommunicationSendTarget::Default => true,
        CommunicationSendTarget::UdpSource(_) => false,
    }
}

/// Whether a payload sent to `target` goes to the TCP client `client_id`: a
/// chosen client only to itself, all clients and the default to every one.
pub fn tcp_target_selects(target: &CommunicationSendTarget, client_id: u64) -> (b: bool)
    ensures
        b == spec_tcp_target_selects(*target, client_id),
{
    match target {
        CommunicationSendTarget::TcpClient(id) => client_id == *id,
        CommunicationSendTarget::AllTcpClients => true,
        CommunicationSendTarget::Default => true,
        CommunicationSendTarget::UdpSource(_) => false,
    }
}

/// The message of a payload refused because the client's write queue would
/// exceed its limit.
pub open spec fn pending_limit_message(endpoint: Seq<char>) -> Seq<char> {
    endpoint + " 的待写队列已达到 1 MiB 上限，会话已停止。"@
}

/// The bookkeeping of one TCP connection: its identity, its byte counters and
/// the bytes waiting to be written, oldest first.
#[derive(Clone, Debug)]
pub struct TcpPeerState {
    pub id: u64,
    pub endpoint: String,
    pub connected_at: String,
    pub received_bytes: u64,
    pub sent_bytes: u64,
    pub pending: VecDeque<u8>,
}

/// `a + b`, saturated at `u64::MAX`.
pub open spec fn add_saturated(a: u64, b: int) -> u64 {
    if a + b > u64::MAX {
        u64::MAX
    } else {
        (a + b) as u64
    }
}

impl TcpPeerState {
    /// The bytes waiting to be written, oldest first.
    pub open spec fn pending(&self) -> Seq<u8> {
        self.pending@
    }

    /// A connection that has not exchanged anything yet.
    pub fn new(id: u64, endpoint: String, connected_at: String) -> (r: Self)
        ensures
            r.id == id,
            r.endpoint == endpoint,
            r.connected_at == connected_at,
            r.received_bytes == 0,
            r.sent_bytes == 0,
            r.pending().len() == 0,
    {
        TcpPeerState { id, endpoint, connected_at, received_bytes: 0, sent_bytes: 0, pending: VecDeque::new() }
    }

    /// Queues `payload` behind the bytes already waiting, unless the queue
    /// would then exceed its limit; then nothing is queued and the session is
    /// to stop with the returned message.
    pub fn enqueue(&mut self, payload: &[u8]) -> (r: Result<(), String>)
        ensures
            final(self).id == old(self).id,
            final(self).endpoint == old(self).endpoint,
            final(self).connected_at == old(self).connected_at,
            final(self).received_bytes == old(self).received_bytes,
            final(self).sent_bytes == old(self).sent_bytes,
            old(self).pending().len() + payload@.len() <= MAX_TCP_PENDING_BYTES ==> (r is Ok
                && final(self).pending() == old(self).pending() + payload@),
            old(self).pending().len() + payload@.len() > MAX_TCP_PENDING_BYTES ==> (r matches Err(m) && m@
                == pending_limit_message(old(self).endpoint@) && final(self).pending() == old(self).pending()),
    {
        if self.pending.len() > MAX_TCP_PENDING_BYTES || payload.len() > MAX_TCP_PENDING_BYTES - self.pending.len() {
            let mut message = self.endpoint.clone();
            push_str(&mut message, " 的待写队列已达到 1 MiB 上限，会话已停止。");
            return Err(message);
        }
        let ghost before = self.pending@;
        let mut i: usize = 0;
        while i < payload.len()
            invariant
                i <= payload@.len(),
                self.pending@ == before + payload@.take(i as int),
                self.id == old(self).id,
                self.endpoint == old(self).endpoint,
                self.connected_at == old(self).connected_at,
                self.received_bytes == old(self).received_bytes,
                self.sent_bytes == old(self).sent_bytes,
            decreases payload.len() - i,
        {
            self.pending.push_back(payload[i]);
            i = i + 1;
            assert(self.pending@ =~= before + payload@.take(i as int));
        }
        assert(payload@.take(payload@.len() as int) =~= payload@);
        Ok(())
    }

    /// Whether bytes are waiting to be written.
    pub fn has_pending(&self) -> (b: bool)
        ensures
            b == (self.pending().len() > 0),
    {
        self.pending.len() > 0
    }

    /// The bytes waiting to be written, oldest first.
    pub fn pending_bytes(&self) -> (r: Vec<u8>)
        ensures
            r@ == self.pending(),
    {
        let mut r: Vec<u8> = Vec::new();
        let mut i: usize = 0;
        while i < self.pending.len()
            invariant
                i <= self.pending@.len(),
                r@ == self.pending@.take(i as int),
            decreases self.pending@.len() - i,
        {
            r.push(self.pending[i]);
            i = i + 1;
            assert(r@ =~= self.pending@.take(i as int));
        }
        assert(self.pending@.take(self.pending@.len() as int) =~= self.pending@);
        r
    }

    /// Takes note that the first `count` waiting bytes were written.
    pub fn record_written(&mut self, count: usize)
        requires
            count <= old(self).pending().len(),
        ensures
            final(self).pending() == old(self).pending().skip(count as int),
            final(self).sent_bytes == add_saturated(old(self).sent_bytes, count as int),
            final(self).received_bytes == old(self).received_bytes,
            final(self).id == old(self).id,
            final(self).endpoint == old(self).endpoint,
            final(self).connected_at == old(self).connected_at,
    {
        let mut i: usize = 0;
        while i < count
            invariant
                i <= count,
                count <= old(self).pending@.len(),
                self.pending@ == old(self).pending@.skip(i as int),
                self.sent_bytes == old(self).sent_bytes,
                self.received_bytes == old(self).received_bytes,
                self.id == old(self).id,
                self.endpoint == old(self).endpoint,
                self.connected_at == old(self).connected_at,
            decreases count - i,
        {
            let _ = self.pending.pop_front();
            i = i + 1;
            assert(self.pending@ =~= old(self).pending@.skip(i as int));
        }
        self.sent_bytes = self.sent_bytes.saturating_add(count as u64);
    }

    /// Takes note that `count` bytes were received.
    pub fn record_received(&mut self, count: usize)
        ensures
            final(self).received_bytes == add_saturated(old(self).received_bytes, count as int),
            final(self).sent_bytes == old(self).sent_bytes,
            final(self).pending() == old(self).pending(),
            final(self).id == old(self).id,
            final(self).endpoint == old(self).endpoint,
            final(self).connected_at == old(self).connected_at,
    {
        self.received_bytes = self.received_bytes.saturating_add(count as u64);
    }

    /// How this connection is announced to the interface.
    pub fn peer(&self) -> (p: CommunicationPeer)
        ensures
            p.id == self.id,
            p.endpoint@ == self.endpoint@,
            p.connected_at@ == self.connected_at@,
            p.received_bytes == self.received_bytes,
            p.sent_bytes == self.sent_bytes,
    {
        CommunicationPeer {
            id: self.id,
            endpoint: self.endpoint.clone(),
            connected_at: self.connected_at.clone(),
            received_bytes: self.received_bytes,
            sent_bytes: self.sent_bytes,
        }
    }
}

/// Bytes queued on a connection leave it in the order they were queued: after
/// queueing `payload` and writing `count` bytes, what waits is the rest of the
/// old queue followed by the payload.
pub proof fn lemma_pending_is_first_in_first_out(pending: Seq<u8>, payload: Seq<u8>, count: int)
    requires
        0 <= count <= pending.len(),
    ensures
        (pending + payload).skip(count) == pending.skip(count) + payload,
{
    assert((pending + payload).skip(count) =~= pending.skip(count) + payload);
}

/// How the peers `peers` are announced to the interface.
pub fn peer_list(peers: &Vec<TcpPeerState>) -> (r: Vec<CommunicationPeer>)
    ensures
        r@.len() == peers@.len(),
        forall|i: int| 0 <= i < peers@.len() ==> {
            &&& (#[trigger] r@[i]).id == peers@[i].id
            &&& r@[i].endpoint@ == peers@[i].endpoint@
            &&& r@[i].connected_at@ == peers@[i].connected_at@
            &&& r@[i].received_bytes == peers@[i].received_bytes
            &&& r@[i].sent_bytes == peers@[i].sent_bytes
        },
{
    let mut r: Vec<CommunicationPeer> = Vec::new();
    let mut i: usize = 0;
    while i < peers.len()
        invariant
            i <= peers@.len(),
            r@.len() == i,
            forall|j: int| 0 <= j < i ==> {
                &&& (#[trigger] r@[j]).id == peers@[j].id
                &&& r@[j].endpoint@ == peers@[j].endpoint@
                &&& r@[j].connected_at@ == peers@[j].connected_at@
                &&& r@[j].received_bytes == peers@[j].received_bytes
                &&& r@[j].sent_bytes == peers@[j].sent_bytes
            },
        decreases peers.len() - i,
    {
        r.push(peers[i].peer());
        i = i + 1;
    }
    r
}

/// The peer `p` is chosen by `target` but cannot take `len` more bytes.
pub open spec fn refuses(p: TcpPeerState, target: CommunicationSendTarget, len: nat) -> bool {
    spec_tcp_target_selects(target, p.id) && p.pending().len() + len > MAX_TCP_PENDING_BYTES
}

/// The position of the first peer from `i` on that refuses the payload, or the
/// number of peers when none does.
pub open spec fn first_refusal_from(
    peers: Seq<TcpPeerState>,
    target: CommunicationSendTarget,
    len: nat,
    i: int,
) -> int
    decreases peers.len() - i,
{
    if i < 0 || i >= peers.len() {
        peers.len() as int
    } else if refuses(peers[i], target, len) {
        i
    } else {
        first_refusal_from(peers, target, len, i + 1)
    }
}

/// `after` is `before` with `payload` queued on the chosen peers before
/// position `stop`; the other peers are untouched.
pub open spec fn queued_before(
    before: Seq<TcpPeerState>,
    after: Seq<TcpPeerState>,
    target: CommunicationSendTarget,
    payload: Seq<u8>,
    stop: int,
) -> bool {
    &&& after.len() == before.len()
    &&& forall|j: int| 0 <= j < before.len() ==> {
        let b = #[trigger] before[j];
        let a = after[j];
        &&& a.id == b.id
        &&& a.endpoint == b.endpoint
        &&& a.connected_at == b.connected_at
        &&& a.received_bytes == b.received_bytes
        &&& a.sent_bytes == b.sent_bytes
        &&& a.pending() == (if j < stop && spec_tcp_target_selects(target, b.id) {
            b.pending() + payload
        } else {
            b.pending()
        })
    }
}

/// The endpoints of the peers before position `stop` that `target` chooses,
/// in order.
pub open spec fn chosen_endpoints(peers: Seq<TcpPeerState>, target: CommunicationSendTarget, stop: int) -> Seq<
    Seq<char>,
>
    decreases stop,
{
    if stop <= 0 || stop > peers.len() {
        Seq::empty()
    } else if spec_tcp_target_selects(target, peers[stop - 1].id) {
        chosen_endpoints(peers, target, stop - 1).push(peers[stop - 1].endpoint@)
    } else {
        chosen_endpoints(peers, target, stop - 1)
    }
}

/// `r` records `payload`, sent at `timestamp` to `endpoint` in `format`.
pub open spec fn outgoing_record(
    r: CommunicationRecord,
    timestamp: Seq<char>,
    endpoint: Seq<char>,
    payload: Seq<u8>,
    format: PayloadFormat,
) -> bool {
    &&& r.timestamp@ == timestamp
    &&& r.direction == CommunicationDirection::Outgoing
    &&& r.endpoint@ == endpoint
    &&& r.payload@ == payload
    &&& r.payload_format == Some(format)
    &&& r.note is None
}

/// `r` is the status record, made at `timestamp`, of a payload that no
/// client was chosen for.
pub open spec fn no_target_record(r: CommunicationRecord, timestamp: Seq<char>) -> bool {
    &&& r.timestamp@ == timestamp
    &&& r.direction == CommunicationDirection::Status
    &&& r.endpoint@ == "TCP"@
    &&& r.payload@.len() == 0
    &&& r.payload_format is None
    &&& r.note matches Some(n) && n@ == "没有可用的发送目标"@
}

/// `added` records a send of `payload` to each endpoint of `endpoints`, in
/// order.
pub open spec fn sends_recorded(
    added: Seq<CommunicationRecord>,
    endpoints: Seq<Seq<char>>,
    timestamp: Seq<char>,
    payload: Seq<u8>,
    format: PayloadFormat,
) -> bool {
    &&& added.len() == endpoints.len()
    &&& forall|k: int|
        0 <= k < added.len() ==> outgoing_record(#[trigger] added[k], timestamp, endpoints[k], payload, format)
}

proof fn lemma_chosen_step(peers: Seq<TcpPeerState>, target: CommunicationSendTarget, i: int)
    requires
        0 <= i < peers.len(),
    ensures
        chosen_endpoints(peers, target, i + 1) == (if spec_tcp_target_selects(target, peers[i].id) {
            chosen_endpoints(peers, target, i).push(peers[i].endpoint@)
        } else {
            chosen_endpoints(peers, target, i)
        }),
{
}

/// Queues a payload on the clients of a TCP server chosen by `target`, and
/// records each send. When a chosen client cannot take the payload, the
/// session is reported failed and `false` is returned: the clients before it
/// have the payload queued, it and the clients after it do not. When no
/// client is chosen, a status record says so.
pub fn queue_server_payload(
    peers: &mut Vec<TcpPeerState>,
    payload: &Vec<u8>,
    target: &CommunicationSendTarget,
    format: PayloadFormat,
    timestamp: &str,
    emitter: &mut EventEmitter,
) -> (keep_running: bool)
    requires
        old(emitter).wf(),
    ensures
        final(emitter).wf(),
        final(emitter).spec_kind() == old(emitter).spec_kind(),
        final(emitter).spec_generation() == old(emitter).spec_generation(),
        keep_running == (first_refusal_from(old(peers)@, *target, payload@.len(), 0) == old(peers)@.len()),
        queued_before(
            old(peers)@,
            final(peers)@,
            *target,
            payload@,
            first_refusal_from(old(peers)@, *target, payload@.len(), 0),
        ),
        ({
            let stop = first_refusal_from(old(peers)@, *target, payload@.len(), 0);
            let chosen = chosen_endpoints(old(peers)@, *target, stop);
            let before = old(emitter).recorded();
            let after = final(emitter).recorded();
            &&& after.len() >= before.len()
            &&& after.take(before.len() as int) == before
            &&& (keep_running && chosen.len() == 0) ==> (after.len() == before.len() + 1 && no_target_record(
                after.last(),
                timestamp@,
            ))
            &&& (!keep_running || chosen.len() > 0) ==> sends_recorded(
                after.skip(before.len() as int),
                chosen,
                timestamp@,
                payload@,
                format,
            )
            &&& !keep_running ==> {
                &&& final(emitter).sent().len() > 0
                &&& final(emitter).sent().last().kind == old(emitter).spec_kind()
                &&& final(emitter).sent().last().generation == old(emitter).spec_generation()
                &&& final(emitter).sent().last().event matches CommunicationEvent::Status { state, detail }
                    && state == CommunicationSessionState::Failed && detail@ == pending_limit_message(
                    old(peers)@[stop].endpoint@,
                )
            }
        }),
{
    let ghost start = peers@;
    let ghost len = payload@.len();
    let ghost rec0 = emitter.recorded();
    let mut matched = false;
    let mut i: usize = 0;
    while i < peers.len()
        invariant
            i <= peers@.len(),
            peers@.len() == start.len(),
            first_refusal_from(start, *target, len, 0) == first_refusal_from(start, *target, len, i as int),
            forall|j: int| i <= j < start.len() ==> #[trigger] peers@[j] == start[j],
            queued_before(start, peers@, *target, payload@, i as int),
            len == payload@.len(),
            start == old(peers)@,
            emitter.wf(),
            emitter.spec_kind() == old(emitter).spec_kind(),
            emitter.spec_generation() == old(emitter).spec_generation(),
            rec0 == old(emitter).recorded(),
            emitter.recorded().len() >= rec0.len(),
            emitter.recorded().take(rec0.len() as int) == rec0,
            sends_recorded(
                emitter.recorded().skip(rec0.len() as int),
                chosen_endpoints(start, *target, i as int),
                timestamp@,
                payload@,
                format,
            ),
            matched == (chosen_endpoints(start, *target, i as int).len() > 0),
        decreases peers.len() - i,
    {
        proof {
            lemma_chosen_step(start, *target, i as int);
        }
        let selected = tcp_target_selects(target, peers[i].id);
        if selected {
            matched = true;
            let mut peer = peers.remove(i);
            assert(peer == start[i as int]);
            match peer.enqueue(payload.as_slice()) {
                Ok(()) => {
                    let endpoint = peer.endpoint.clone();
                    let ghost mid = peers@;
                    peers.insert(i, peer);
                    assert forall|j: int| 0 <= j < start.len() && j != i implies peers@[j] == (if j < i {
                        mid[j]
                    } else {
                        mid[j - 1]
                    }) by {}
                    let ghost recs = emitter.recorded();
                    let bytes = payload.clone();
                    assert(bytes@ =~= payload@);
                    emitter.record(owned(timestamp), CommunicationDirection::Outgoing, endpoint, bytes,
                        Some(format), None);
                    proof {
                        let after = emitter.recorded();
                        assert(after.take(rec0.len() as int) =~= rec0);
                        assert(after.skip(rec0.len() as int) =~= recs.skip(rec0.len() as int).push(after.last()));
                    }
                },
                Err(message) => {
                    let ghost mid = peers@;
                    peers.insert(i, peer);
                    assert forall|j: int| 0 <= j < start.len() && j != i implies peers@[j] == (if j < i {
                        mid[j]
                    } else {
                        mid[j - 1]
                    }) by {}
                    assert(first_refusal_from(start, *target, len, i as int) == i as int);
                    assert(peers@[i as int].pending() == start[i as int].pending());
                    emitter.status(CommunicationSessionState::Failed, message);
                    return false;
                },
            }
        }
        proof {
            assert(!refuses(start[i as int], *target, len));
            assert(first_refusal_from(start, *target, len, i as int) == first_refusal_from(start, *target, len, i + 1));
        }
        i = i + 1;
    }
    if !matched {
        emitter.record(owned(timestamp), CommunicationDirection::Status, owned("TCP"), Vec::new(), None,
            Some(owned("没有可用的发送目标")));
        proof {
            let after = emitter.recorded();
            assert(after.take(rec0.len() as int) =~= rec0);
        }
    }
    true
}

/// What a UDP session does with a payload to send.
#[derive(Clone, Debug, PartialEq, Eq)]
pub enum UdpSendPlan {
    /// The payload exceeds what one datagram may carry; nothing is sent.
    TooLarge,
    /// Neither a source was chosen nor a default remote configured.
    NoDestination,
    /// The payload goes to this address, in its `ip:port` text form.
    SendTo(String),
}

/// Where a UDP payload of `payload_len` bytes sent to `target` goes: to the
/// chosen source when one was chosen, else to the default remote.
pub fn udp_send_plan(payload_len: usize, target: &CommunicationSendTarget, default_remote: &Option<String>) -> (plan:
    UdpSendPlan)
    ensures
        payload_len > MAX_UDP_PAYLOAD_BYTES ==> plan == UdpSendPlan::TooLarge,
        payload_len <= MAX_UDP_PAYLOAD_BYTES ==> match *target {
            CommunicationSendTarget::UdpSource(source) => plan matches UdpSendPlan::SendTo(a) && a@ == source@,
            _ => match *default_remote {
                Some(remote) => plan matches UdpSendPlan::SendTo(a) && a@ == remote@,
                None => plan == UdpSendPlan::NoDestination,
            },
        },
{
    if payload_len > MAX_UDP_PAYLOAD_BYTES {
        return UdpSendPlan::TooLarge;
    }
    match target {
        CommunicationSendTarget::UdpSource(source) => UdpSendPlan::SendTo(source.clone()),
        _ => match default_remote {
            Some(remote) => UdpSendPlan::SendTo(remote.clone()),
            None => UdpSendPlan::NoDestination,
        },
    }
}

/// The status note of a UDP payload that was not sent: too large, or without
/// a destination.
pub fn udp_refusal_note(plan: &UdpSendPlan) -> (note: Option<String>)
    ensures
        match *plan {
            UdpSendPlan::TooLarge => note matches Some(n) && n@ == "UDP 单次载荷不能超过 65507 字节"@,
            UdpSendPlan::NoDestination => note matches Some(n) && n@ == "未配置默认远端，也未选择接收来源"@,
            UdpSendPlan::SendTo(_) => note is None,
        },
{
    match plan {
        UdpSendPlan::TooLarge => Some(owned("UDP 单次载荷不能超过 65507 字节")),
        UdpSendPlan::NoDestination => Some(owned("未配置默认远端，也未选择接收来源")),
        UdpSendPlan::SendTo(_) => None,
    }
}

/// The status note of a datagram of which only `count` bytes were sent.
pub fn udp_partial_send_note(count: u64) -> (note: String)
    ensures
        note@ == "UDP 仅发送 "@ + decimal(count as nat) + " 字节"@,
{
    let mut note = owned("UDP 仅发送 ");
    push_decimal(&mut note, count);
    push_str(&mut note, " 字节");
    note
}

/// The status note of a serial control line set (`true`) or cleared.
pub fn line_signal_note(signal: &str, enabled: bool) -> (note: String)
    ensures
        note@ == signal@ + " 已"@ + (if enabled {
            "置位"@
        } else {
            "复位"@
        }),
{
    let mut note = owned(signal);
    push_str(&mut note, " 已");
    if enabled {
        push_str(&mut note, "置位");
    } else {
        push_str(&mut note, "复位");
    }
    note
}

/// What one poll of a session's command queue gave.
#[derive(Clone, Debug, PartialEq, Eq)]
pub enum CommandPoll {
    Received(CommunicationCommand),
    /// No command is waiting.
    Empty,
    /// The interface side of the queue is gone.
    Disconnected,
}

/// What a session does with the result of a command poll.
#[derive(Clone, Debug, PartialEq, Eq)]
pub enum CommandAction {
    /// No command is waiting: go on with the session's input and output.
    Done,
    /// End the session.
    Stop,
    /// Nothing to do for this command; poll the next one.
    Skip,
    /// Send a payload.
    Send { payload: Vec<u8>, target: CommunicationSendTarget, format: PayloadFormat },
    /// Set or clear the serial RTS line.
    SetRts(bool),
    /// Set or clear the serial DTR line.
    SetDtr(bool),
}

/// The action of a session of kind `kind` for `poll`: TCP and serial sessions
/// skip empty payloads, UDP sends them as empty datagrams; only serial
/// sessions have control lines.
pub open spec fn spec_command_action(kind: CommunicationKind, poll: CommandPoll) -> CommandAction {
    match poll {
        CommandPoll::Empty => CommandAction::Done,
        CommandPoll::Disconnected => CommandAction::Stop,
        CommandPoll::Received(command) => match command {
            CommunicationCommand::Stop => CommandAction::Stop,
            CommunicationCommand::Send { payload, target, format } => if kind != CommunicationKind::Udp
                && payload@.len() == 0 {
                CommandAction::Skip
            } else {
                CommandAction::Send { payload, target, format }
            },
            CommunicationCommand::SetRts(on) => if kind == CommunicationKind::Serial {
                CommandAction::SetRts(on)
            } else {
                CommandAction::Skip
            },
            CommunicationCommand::SetDtr(on) => if kind == CommunicationKind::Serial {
                CommandAction::SetDtr(on)
            } else {
                CommandAction::Skip
            },
        },
    }
}

/// Control-line commands reach the port of a serial session unchanged: a
/// serial session sets RTS or DTR to exactly the level asked for, while TCP
/// and UDP sessions, which have no control lines, skip them.
pub proof fn lemma_serial_control_lines(kind: CommunicationKind, on: bool)
    ensures
        kind == CommunicationKind::Serial ==> spec_command_action(
            kind,
            CommandPoll::Received(CommunicationCommand::SetDtr(on)),
        ) == CommandAction::SetDtr(on),
        kind == CommunicationKind::Serial ==> spec_command_action(
            kind,
            CommandPoll::Received(CommunicationCommand::SetRts(on)),
        ) == CommandAction::SetRts(on),
        kind != CommunicationKind::Serial ==> spec_command_action(
            kind,
            CommandPoll::Received(CommunicationCommand::SetDtr(on)),
        ) == CommandAction::Skip,
        kind != CommunicationKind::Serial ==> spec_command_action(
            kind,
            CommandPoll::Received(CommunicationCommand::SetRts(on)),
        ) == CommandAction::Skip,
{
}

/// How a session treats what its command queue gives: nothing waiting ends
/// the polling round, a closed queue or a stop request stops the session,
/// and a payload is sent unchanged, to the same target and in the same
/// format, except that TCP and serial sessions skip an empty payload, which
/// UDP sends as an empty datagram.
pub proof fn lemma_command_routing(
    kind: CommunicationKind,
    payload: Vec<u8>,
    target: CommunicationSendTarget,
    format: PayloadFormat,
)
    ensures
        spec_command_action(kind, CommandPoll::Empty) == CommandAction::Done,
        spec_command_action(kind, CommandPoll::Disconnected) == CommandAction::Stop,
        spec_command_action(kind, CommandPoll::Received(CommunicationCommand::Stop)) == CommandAction::Stop,
        (payload@.len() > 0 || kind == CommunicationKind::Udp) ==> spec_command_action(
            kind,
            CommandPoll::Received(CommunicationCommand::Send { payload, target, format }),
        ) == (CommandAction::Send { payload, target, format }),
        (payload@.len() == 0 && kind != CommunicationKind::Udp) ==> spec_command_action(
            kind,
            CommandPoll::Received(CommunicationCommand::Send { payload, target, format }),
        ) == CommandAction::Skip,
{
}

/// What a session of kind `kind` does with the result of a command poll.
pub fn command_action(kind: CommunicationKind, poll: CommandPoll) -> (action: CommandAction)
    ensures
        action == spec_command_action(kind, poll),
{
    match poll {
        CommandPoll::Empty => CommandAction::Done,
        CommandPoll::Disconnected => CommandAction::Stop,
        CommandPoll::Received(command) => match command {
            CommunicationCommand::Stop => CommandAction::Stop,
            CommunicationCommand::Send { payload, target, format } => {
                if kind != CommunicationKind::Udp && payload.len() == 0 {
                    CommandAction::Skip
                } else {
                    CommandAction::Send { payload, target, format }
                }
            },
            CommunicationCommand::SetRts(on) => {
                if kind == CommunicationKind::Serial {
                    CommandAction::SetRts(on)
                } else {
                    CommandAction::Skip
                }
            },
            CommunicationCommand::SetDtr(on) => {
                if kind == CommunicationKind::Serial {
                    CommandAction::SetDtr(on)
                } else {
                    CommandAction::Skip
                }
            },
        },
    }
}

/// What one read of a session's input gave.
#[derive(Clone, Debug, PartialEq, Eq)]
pub enum ReadOutcome {
    /// Bytes arrived (for UDP, one datagram, which may be empty).
    Data(Vec<u8>),
    /// The read returned no byte: the peer closed a TCP stream; a serial
    /// port simply had nothing.
    Zero,
    /// Nothing is available yet.
    Idle,
    /// The read failed, for this reason.
    Failed(String),
}

/// What a session does with the result of a read.
#[derive(Clone, Debug, PartialEq, Eq)]
pub enum ReadStep {
    /// Nothing arrived; carry on.
    Continue,
    /// Record these received bytes.
    Record(Vec<u8>),
    /// The session ends in `state`, reported with `detail`.
    Finish { state: CommunicationSessionState, detail: String },
    /// Drop this client of a TCP server, with the status note to record.
    Disconnect(Option<String>),
}

/// `prefix` followed by `reason`.
fn with_reason(prefix: &str, reason: &str) -> (t: String)
    ensures
        t@ == prefix@ + reason@,
{
    let mut t = owned(prefix);
    push_str(&mut t, reason);
    t
}

/// The step of a TCP client session after reading from its stream: a closed
/// stream stops the session, a failed read fails it.
pub fn tcp_client_read_step(outcome: ReadOutcome) -> (step: ReadStep)
    ensures
        match outcome {
            ReadOutcome::Data(bytes) => step == ReadStep::Record(bytes),
            ReadOutcome::Zero => step matches ReadStep::Finish { state, detail } && state
                == CommunicationSessionState::Stopped && detail@ == "远端已关闭 TCP 连接"@,
            ReadOutcome::Idle => step == ReadStep::Continue,
            ReadOutcome::Failed(reason) => step matches ReadStep::Finish { state, detail } && state
                == CommunicationSessionState::Failed && detail@ == "TCP 读取失败："@ + reason@,
        },
{
    match outcome {
        ReadOutcome::Data(bytes) => ReadStep::Record(bytes),
        ReadOutcome::Zero => ReadStep::Finish {
            state: CommunicationSessionState::Stopped,
            detail: owned("远端已关闭 TCP 连接"),
        },
        ReadOutcome::Idle => ReadStep::Continue,
        ReadOutcome::Failed(reason) => ReadStep::Finish {
            state: CommunicationSessionState::Failed,
            detail: with_reason("TCP 读取失败：", reason.as_str()),
        },
    }
}

/// The step of a TCP server session after reading from one client: a closed
/// or failed client is dropped, the server goes on.
pub fn tcp_server_read_step(outcome: ReadOutcome) -> (step: ReadStep)
    ensures
        match outcome {
            ReadOutcome::Data(bytes) => step == ReadStep::Record(bytes),
            ReadOutcome::Zero => step == ReadStep::Disconnect(None),
            ReadOutcome::Idle => step == ReadStep::Continue,
            ReadOutcome::Failed(reason) => step matches ReadStep::Disconnect(Some(note)) && note@ == "TCP 读取失败："@
                + reason@,
        },
{
    match outcome {
        ReadOutcome::Data(bytes) => ReadStep::Record(bytes),
        ReadOutcome::Zero => ReadStep::Disconnect(None),
        ReadOutcome::Idle => ReadStep::Continue,
        ReadOutcome::Failed(reason) => ReadStep::Disconnect(Some(with_reason("TCP 读取失败：", reason.as_str()))),
    }
}

/// The step of a UDP session after receiving: every datagram is recorded,
/// even an empty one; a failed receive fails the session.
pub fn udp_receive_step(outcome: ReadOutcome) -> (step: ReadStep)
    ensures
        match outcome {
            ReadOutcome::Data(bytes) => step == ReadStep::Record(bytes),
            ReadOutcome::Zero => step matches ReadStep::Record(bytes) && bytes@.len() == 0,
            ReadOutcome::Idle => step == ReadStep::Continue,
            ReadOutcome::Failed(reason) => step matches ReadStep::Finish { state, detail } && state
                == CommunicationSessionState::Failed && detail@ == "UDP 接收失败："@ + reason@,
        },
{
    match outcome {
        ReadOutcome::Data(bytes) => ReadStep::Record(bytes),
        ReadOutcome::Zero => ReadStep::Record(Vec::new()),
        ReadOutcome::Idle => ReadStep::Continue,
        ReadOutcome::Failed(reason) => ReadStep::Finish {
            state: CommunicationSessionState::Failed,
            detail: with_reason("UDP 接收失败：", reason.as_str()),
        },
    }
}

/// The step of a serial session after reading its port: a read of nothing or
/// a time-out goes on, any other failure means the device is gone.
pub fn serial_read_step(outcome: ReadOutcome) -> (step: ReadStep)
    ensures
        match outcome {
            ReadOutcome::Data(bytes) => step == ReadStep::Record(bytes),
            ReadOutcome::Zero => step == ReadStep::Continue,
            ReadOutcome::Idle => step == ReadStep::Continue,
            ReadOutcome::Failed(reason) => step matches ReadStep::Finish { state, detail } && state
                == CommunicationSessionState::Failed && detail@ == "串口读取失败或设备已拔出："@ + reason@,
        },
{
    match outcome {
        ReadOutcome::Data(bytes) => ReadStep::Record(bytes),
        ReadOutcome::Zero => ReadStep::Continue,
        ReadOutcome::Idle => ReadStep::Continue,
        ReadOutcome::Failed(reason) => ReadStep::Finish {
            state: CommunicationSessionState::Failed,
            detail: with_reason("串口读取失败或设备已拔出：", reason.as_str()),
        },
    }
}

/// How a serial port is attached, as the port enumeration reports it.
#[derive(Clone, Debug, PartialEq, Eq)]
pub enum SerialPortKind {
    Usb {
        vid: u16,
        pid: u16,
        serial_number: Option<String>,
        manufacturer: Option<String>,
        product: Option<String>,
    },
    Bluetooth,
    Pci,
    Unknown,
}

/// The entry of the port list for the port `port_name` attached as `kind`;
/// the USB details are kept as reported.
pub fn serial_port_descriptor(port_name: String, kind: SerialPortKind) -> (d: SerialPortDescriptor)
    ensures
        d.port_name == port_name,
        match kind {
            SerialPortKind::Usb { vid, pid, serial_number, manufacturer, product } => {
                &&& d.port_type@ == "USB"@
                &&& d.vid == Some(vid)
                &&& d.pid == Some(pid)
                &&& d.serial_number == serial_number
                &&& d.manufacturer == manufacturer
                &&& d.product == product
            },
            _ => {
                &&& d.port_type@ == match kind {
                    SerialPortKind::Bluetooth => "蓝牙"@,
                    SerialPortKind::Pci => "PCI"@,
                    _ => "未知"@,
                }
                &&& d.vid is None && d.pid is None
                &&& d.serial_number is None && d.manufacturer is None && d.product is None
            },
        },
{
    match kind {
        SerialPortKind::Usb { vid, pid, serial_number, manufacturer, product } => SerialPortDescriptor {
            port_name,
            port_type: owned("USB"),
            manufacturer,
            product,
            serial_number,
            vid: Some(vid),
            pid: Some(pid),
        },
        other => {
            let port_type = match other {
                SerialPortKind::Bluetooth => owned("蓝牙"),
                SerialPortKind::Pci => owned("PCI"),
                _ => owned("未知"),
            };
            SerialPortDescriptor {
                port_name,
                port_type,
                manufacturer: None,
                product: None,
                serial_number: None,
                vid: None,
                pid: None,
            }
        },
    }
}

/// The ports in order of their names; ports of the same name keep their
/// order.
pub fn sort_serial_ports(ports: Vec<SerialPortDescriptor>) -> (sorted: Vec<SerialPortDescriptor>)
    ensures
        sorted@.to_multiset() == ports@.to_multiset(),
        forall|a: int, b: int|
            0 <= a < b < sorted@.len() ==> !lex_lt(#[trigger] sorted@[b].port_name@, #[trigger] sorted@[a].port_name@),
        exists|perm: Seq<int>|
            {
                &&& is_permutation(perm, ports@.len() as int)
                &&& forall|k: int| 0 <= k < sorted@.len() ==> sorted@[k] == ports@[#[trigger] perm[k]]
                &&& forall|a: int, b: int|
                    0 <= a < b < sorted@.len() && (#[trigger] sorted@[a]).port_name@ == (
                    #[trigger] sorted@[b]).port_name@ ==> perm[a] < perm[b]
            },
{
    let ghost all = ports@;
    let mut rest = ports;
    let mut out: Vec<SerialPortDescriptor> = Vec::new();
    let ghost mut i: int = 0;
    let ghost mut perm: Seq<int> = Seq::empty();
    assert(out@.to_multiset() =~= all.take(0).to_multiset()) by {
        assert(all.take(0) =~= Seq::<SerialPortDescriptor>::empty());
        assert(out@ =~= Seq::<SerialPortDescriptor>::empty());
    }
    while rest.len() > 0
        invariant
            0 <= i <= all.len(),
            rest@ == all.skip(i),
            out@.to_multiset() == all.take(i).to_multiset(),
            forall|a: int, b: int|
                0 <= a < b < out@.len() ==> !lex_lt(#[trigger] out@[b].port_name@, #[trigger] out@[a].port_name@),
            out@.len() == i,
            perm.len() == i,
            forall|k: int| 0 <= k < i ==> 0 <= #[trigger] perm[k] < i,
            forall|a: int, b: int| 0 <= a < b < i ==> perm[a] != perm[b],
            forall|k: int| 0 <= k < i ==> out@[k] == all[#[trigger] perm[k]],
            forall|a: int, b: int|
                0 <= a < b < out@.len() && (#[trigger] out@[a]).port_name@ == (#[trigger] out@[b]).port_name@
                    ==> perm[a] < perm[b],
        decreases rest.len(),
    {
        let x = rest.remove(0);
        proof {
            assert(x == all[i]);
            assert(rest@ =~= all.skip(i + 1));
            assert(all.take(i + 1) =~= all.take(i).push(x));
        }
        let name = chars_of(x.port_name.as_str());
        let mut k: usize = 0;
        while k < out.len() && !lex_less(&name, &chars_of(out[k].port_name.as_str()))
            invariant
                k <= out@.len(),
                name@ == x.port_name@,
                forall|j: int| 0 <= j < k ==> !lex_lt(x.port_name@, #[trigger] out@[j].port_name@),
            decreases out.len() - k,
        {
            k = k + 1;
        }
        let ghost before = out@;
        let ghost before_perm = perm;
        out.insert(k, x);
        proof {
            vstd::seq_lib::to_multiset_build(all.take(i), x);
            vstd::seq_lib::to_multiset_insert(before, k as int, x);
            assert(k < before.len() ==> lex_lt(x.port_name@, before[k as int].port_name@));
            assert forall|a: int, b: int| 0 <= a < b < out@.len() implies !lex_lt(
                #[trigger] out@[b].port_name@,
                #[trigger] out@[a].port_name@,
            ) by {
                if a < k && b == k {
                } else if a == k && b > k {
                    let y = before[b - 1].port_name@;
                    let z = before[k as int].port_name@;
                    assert(lex_lt(x.port_name@, z));
                    if lex_lt(y, x.port_name@) {
                        lemma_lex_transitive(y, x.port_name@, z);
                        if b - 1 == k {
                            lemma_lex_irreflexive(z);
                        } else {
                            assert(!lex_lt(before[b - 1].port_name@, before[k as int].port_name@));
                        }
                    }
                } else if a < k && b > k {
                    assert(!lex_lt(before[b - 1].port_name@, before[a].port_name@));
                } else if a > k {
                    assert(!lex_lt(before[b - 1].port_name@, before[a - 1].port_name@));
                } else {
                }
            }
            perm = before_perm.insert(k as int, i);
            assert forall|j: int| 0 <= j < i + 1 implies out@[j] == all[#[trigger] perm[j]] by {
                if j < k {
                    assert(out@[j] == before[j]);
                } else if j > k {
                    assert(out@[j] == before[j - 1]);
                }
            }
            assert forall|a: int, b: int|
                0 <= a < b < out@.len() && (#[trigger] out@[a]).port_name@ == (#[trigger] out@[b]).port_name@
                    implies perm[a] < perm[b] by {
                if a == k && b > k {
                    let y = before[b - 1].port_name@;
                    let z = before[k as int].port_name@;
                    assert(out@[b] == before[b - 1]);
                    assert(lex_lt(y, z));
                    if b - 1 == k {
                        lemma_lex_irreflexive(z);
                    } else {
                        assert(!lex_lt(before[b - 1].port_name@, before[k as int].port_name@));
                    }
                } else if a < k && b == k {
                    assert(perm[a] == before_perm[a]);
                } else if a < k && b > k {
                    assert(out@[a] == before[a] && out@[b] == before[b - 1]);
                } else if b < k {
                    assert(out@[a] == before[a] && out@[b] == before[b]);
                } else {
                    assert(out@[a] == before[a - 1] && out@[b] == before[b - 1]);
                }
            }
            i = i + 1;
        }
    }
    assert(all.take(i) =~= all);
    assert(is_permutation(perm, all.len() as int));
    out
}

/// A session starts only from a valid configuration; the problem of an
/// invalid one is reported as invalid input.
pub fn check_config(config: &CommunicationConfig) -> (r: Result<(), AppError>)
    ensures
        config_problem(*config) is None <==> r is Ok,
        config_problem(*config) matches Some(p) ==> (r matches Err(AppError::InvalidInput(m)) && m@ == p),
{
    match config.validate() {
        Ok(()) => Ok(()),
        Err(problem) => Err(AppError::InvalidInput(problem)),
    }
}

} // verus!

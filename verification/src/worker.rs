//! Background task protocol: the requests that the interface hands to the
//! fixed worker pool, and how a request enters the bounded queue.
//!
//! The interface only submits bounded requests and consumes events; every
//! potentially blocking system call runs on one of the worker threads.
use vstd::prelude::*;

use std::sync::mpsc::SyncSender;

use crate::channel::{SendOutcome, SyncQueue};
use crate::model::dns::DnsRecordType;
use crate::model::error::AppError;
use crate::model::ping::PingAddressFamily;
use crate::text::owned;

verus! {

/// The identifier of a submitted request; identifiers grow with each request,
/// so that the interface can drop results of older requests of a tool.
pub type RequestId = u64;

/// Number of worker threads in the pool.
pub const WORKER_THREAD_COUNT: usize = 4;

/// Capacity of the request queue shared by the workers.
pub const REQUEST_QUEUE_CAPACITY: usize = 32;

/// A task for the worker pool.
#[derive(Clone, Debug)]
pub enum TaskRequest {
    FileLocks { path: String },
    Ports,
    Process { pid: u32 },
    TerminateProcess { pid: u32 },
    DnsLookup { host: String, record_type: DnsRecordType, bypass_cache: bool },
    Ping { host: String, count: u32, timeout_ms: u32, payload_size: u16, family: PingAddressFamily },
    TcpProbe { host: String, port: u16, timeout_ms: u32 },
}

impl TaskRequest {
    /// The tool whose page shows the result of this request.
    pub open spec fn spec_target_tool_id(self) -> Seq<char> {
        match self {
            TaskRequest::FileLocks { .. } => "file-lock"@,
            TaskRequest::Ports => "port-inspector"@,
            TaskRequest::Process { .. } => "process-inspector"@,
            TaskRequest::TerminateProcess { .. } => "process-inspector"@,
            TaskRequest::DnsLookup { .. } => "dns-lookup"@,
            TaskRequest::Ping { .. } => "ping"@,
            TaskRequest::TcpProbe { .. } => "tcp-probe"@,
        }
    }

    pub fn target_tool_id(&self) -> (id: &'static str)
        ensures
            id@ == self.spec_target_tool_id(),
    {
        match self {
            TaskRequest::FileLocks { .. } => "file-lock",
            TaskRequest::Ports => "port-inspector",
            TaskRequest::Process { .. } => "process-inspector",
            TaskRequest::TerminateProcess { .. } => "process-inspector",
            TaskRequest::DnsLookup { .. } => "dns-lookup",
            TaskRequest::Ping { .. } => "ping",
            TaskRequest::TcpProbe { .. } => "tcp-probe",
        }
    }
}

/// A request bound to its identifier.
#[derive(Clone, Debug)]
pub struct TaskRequestEnvelope {
    pub request_id: RequestId,
    pub request: TaskRequest,
}

/// The message of a request refused because the queue is full.
pub open spec fn queue_full_message() -> Seq<char> {
    "后台任务队列已满，请稍后重试。"@
}

/// The message of a request refused because the workers have stopped.
pub open spec fn workers_stopped_message() -> Seq<char> {
    "后台工作线程已停止，请重新启动程序。"@
}

/// What the submitter is answered when the envelope with `id` met `outcome`:
/// the identifier when it was queued, otherwise the error of that outcome.
pub open spec fn enqueue_answer_is(r: Result<RequestId, AppError>, outcome: SendOutcome, id: RequestId) -> bool {
    match outcome {
        SendOutcome::Sent => r == Ok::<RequestId, AppError>(id),
        SendOutcome::Full => r matches Err(AppError::QueueFull(m)) && m@ == queue_full_message(),
        SendOutcome::Disconnected => r matches Err(AppError::WorkerBusy(m)) && m@
            == workers_stopped_message(),
    }
}

/// The answer to a submission whose envelope, numbered `request_id`, met
/// `outcome` at the queue.
pub fn enqueue_result(outcome: SendOutcome, request_id: RequestId) -> (r: Result<RequestId, AppError>)
    ensures
        enqueue_answer_is(r, outcome, request_id),
{
    match outcome {
        SendOutcome::Sent => Ok(request_id),
        SendOutcome::Full => Err(AppError::QueueFull(owned("后台任务队列已满，请稍后重试。"))),
        SendOutcome::Disconnected => Err(
            AppError::WorkerBusy(owned("后台工作线程已停止，请重新启动程序。")),
        ),
    }
}

/// `after` is the record of the request queue `before` with one more
/// envelope, which carries `request`, and `r` is the answer to that envelope
/// for one of the outcomes it can meet.
pub open spec fn offered_request(
    before: Seq<TaskRequestEnvelope>,
    after: Seq<TaskRequestEnvelope>,
    request: TaskRequest,
    r: Result<RequestId, AppError>,
) -> bool {
    &&& after.len() == before.len() + 1
    &&& after.drop_last() == before
    &&& after.last().request == request
    &&& {
        ||| enqueue_answer_is(r, SendOutcome::Sent, after.last().request_id)
        ||| enqueue_answer_is(r, SendOutcome::Full, after.last().request_id)
        ||| enqueue_answer_is(r, SendOutcome::Disconnected, after.last().request_id)
    }
}

/// The identifier after `id`: the next integer, wrapping to 0 after the
/// largest one.
pub open spec fn next_after(id: RequestId) -> RequestId {
    if id == u64::MAX {
        0
    } else {
        (id + 1) as u64
    }
}

/// The envelopes `offered` carry identifiers that grow from one to the next
/// and stay below `next`.
pub open spec fn ids_ascending_below(offered: Seq<TaskRequestEnvelope>, next: RequestId) -> bool {
    &&& forall|i: int, j: int|
        0 <= i < j < offered.len() ==> (#[trigger] offered[i]).request_id < (#[trigger] offered[j]).request_id
    &&& forall|i: int| 0 <= i < offered.len() ==> (#[trigger] offered[i]).request_id < next
}

/// Takes the next identifier from `next_request_id` and offers the request to
/// the queue without waiting: a full queue or stopped workers are reported at
/// once instead of blocking the interface.
pub fn try_enqueue(
    queue: &mut SyncQueue<TaskRequestEnvelope>,
    next_request_id: &mut RequestId,
    request: TaskRequest,
) -> (r: Result<RequestId, AppError>)
    ensures
        final(queue).sender() == old(queue).sender(),
        offered_request(old(queue).offered(), final(queue).offered(), request, r),
        final(queue).offered().last().request_id == *old(next_request_id),
        *final(next_request_id) == next_after(*old(next_request_id)),
{
    let request_id = *next_request_id;
    *next_request_id = if request_id == u64::MAX {
        0
    } else {
        request_id + 1
    };
    let envelope = TaskRequestEnvelope { request_id, request };
    let outcome = queue.try_offer(envelope);
    proof {
        assert(queue.offered().drop_last() =~= old(queue).offered());
    }
    enqueue_result(outcome, request_id)
}

/// Submits requests to the worker pool, numbering them 1, 2, 3 and so on.
pub struct TaskDispatcher {
    queue: SyncQueue<TaskRequestEnvelope>,
    next_request_id: RequestId,
}

impl TaskDispatcher {
    /// The request queue that the dispatcher submits to.
    pub closed spec fn queue(&self) -> SyncQueue<TaskRequestEnvelope> {
        self.queue
    }

    /// The identifier the next request gets.
    pub closed spec fn next_id(&self) -> RequestId {
        self.next_request_id
    }

    /// A dispatcher over the request queue of a started pool; identifiers
    /// start at 1.
    pub fn new(sender: SyncSender<TaskRequestEnvelope>) -> (d: Self)
        ensures
            d.queue().sender() == sender,
            d.queue().offered() == Seq::<TaskRequestEnvelope>::empty(),
            d.next_id() == 1,
            ids_ascending_below(d.queue().offered(), d.next_id()),
    {
        TaskDispatcher { queue: SyncQueue::new(sender), next_request_id: 1 }
    }

    /// Submits a request; see [`try_enqueue`]. The request gets the
    /// dispatcher's next identifier, so until the counter wraps every
    /// request gets an identifier larger than all earlier ones.
    pub fn dispatch(&mut self, request: TaskRequest) -> (r: Result<RequestId, AppError>)
        ensures
            final(self).queue().sender() == old(self).queue().sender(),
            offered_request(old(self).queue().offered(), final(self).queue().offered(), request, r),
            final(self).queue().offered().last().request_id == old(self).next_id(),
            final(self).next_id() == next_after(old(self).next_id()),
            (ids_ascending_below(old(self).queue().offered(), old(self).next_id()) && old(self).next_id()
                < u64::MAX) ==> ids_ascending_below(final(self).queue().offered(), final(self).next_id()),
    {
        let r = try_enqueue(&mut self.queue, &mut self.next_request_id, request);
        proof {
            let before = old(self).queue().offered();
            let after = self.queue().offered();
            if ids_ascending_below(before, old(self).next_id()) && old(self).next_id() < u64::MAX {
                assert forall|i: int| 0 <= i < after.len() implies (#[trigger] after[i]).request_id
                    < self.next_id() by {
                    if i < before.len() {
                        assert(after[i] == before[i]);
                    }
                }
                assert forall|i: int, j: int| 0 <= i < j < after.len() implies (#[trigger] after[i]).request_id
                    < (#[trigger] after[j]).request_id by {
                    assert(after[i] == before[i]);
                    if j < before.len() {
                        assert(after[j] == before[j]);
                    }
                }
            }
        }
        r
    }
}

} // verus!

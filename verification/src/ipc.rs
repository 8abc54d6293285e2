//! The exchange by which a second start of the program hands its invocation
//! to the instance that is already running: the size limit of one message,
//! the reply that the running instance sends back, and what the second start
//! makes of that reply. The pipe itself and the JSON encoding stay with the
//! caller; here are the decisions on what was read.
use vstd::prelude::*;

use crate::channel::Queue;
use crate::invocation::{ToolInvocation, ACTIVATE_TOOL_ID};
use crate::model::error::AppError;
use crate::text::{owned, push_str};

verus! {

/// Size in bytes of the pipe buffers; an encoded invocation must fit in one.
pub const PIPE_BUFFER_SIZE: usize = 16384;

/// How many times a second start tries to reach the running instance.
pub const SEND_RETRY_COUNT: usize = 12;

/// Pause between two tries, in milliseconds.
pub const SEND_RETRY_DELAY_MS: u64 = 80;

/// How long one exchange waits for the reply, in milliseconds.
pub const EXCHANGE_TIMEOUT_MS: u32 = 1200;

/// The running instance's answer to a forwarded invocation.
#[derive(Clone, Debug, PartialEq, Eq)]
pub enum IpcReply {
    Accepted,
    Rejected { reason: String },
}

/// Reason sent back for a message that is not an invocation.
pub open spec fn malformed_reason(error: Seq<char>) -> Seq<char> {
    "调用数据格式无效："@ + error
}

/// Reason sent back when the window that takes invocations has closed.
pub open spec fn closed_window_reason() -> Seq<char> {
    "主窗口已关闭，无法接收调用。"@
}

/// The reply to a message that could not be read as an invocation, `error`
/// being the decoder's description.
pub fn reply_for_malformed(error: &str) -> (r: IpcReply)
    ensures
        r matches IpcReply::Rejected { reason } && reason@ == malformed_reason(error@),
{
    let mut reason = owned("调用数据格式无效：");
    push_str(&mut reason, error);
    IpcReply::Rejected { reason }
}

/// The reply to a well-formed invocation: accepted when it reached the
/// window's queue, rejected when the window has closed.
pub fn reply_for_delivery(delivered: bool) -> (r: IpcReply)
    ensures
        delivered ==> r is Accepted,
        !delivered ==> (r matches IpcReply::Rejected { reason } && reason@ == closed_window_reason()),
{
    if delivered {
        IpcReply::Accepted
    } else {
        IpcReply::Rejected { reason: owned("主窗口已关闭，无法接收调用。") }
    }
}

/// The running instance's handling of one message: a malformed one is
/// rejected with the decoder's description; a well-formed invocation is
/// handed to the window's queue and accepted, or rejected if the window has
/// closed. Which of those two happens depends on the receiving thread.
pub fn reply_for_payload(decoded: Result<ToolInvocation, String>, window: &mut Queue<ToolInvocation>) -> (r:
    IpcReply)
    ensures
        final(window).sender() == old(window).sender(),
        decoded matches Err(error) ==> {
            &&& r matches IpcReply::Rejected { reason } && reason@ == malformed_reason(error@)
            &&& final(window).offered() == old(window).offered()
        },
        decoded matches Ok(invocation) ==> {
            &&& final(window).offered() == old(window).offered().push(invocation)
            &&& (r is Accepted || (r matches IpcReply::Rejected { reason } && reason@
                == closed_window_reason()))
        },
{
    match decoded {
        Err(error) => reply_for_malformed(error.as_str()),
        Ok(invocation) => {
            let delivered = window.offer(invocation);
            reply_for_delivery(delivered)
        },
    }
}

/// Checks that an encoded invocation of `len` bytes fits in one message.
pub fn check_message_size(len: usize) -> (r: Result<(), AppError>)
    ensures
        r is Err <==> len > PIPE_BUFFER_SIZE,
        r matches Err(e) ==> (e matches AppError::IpcFailed(m) && m@
            == "工具调用路径过长，无法通过命名管道传递。"@),
{
    if len > PIPE_BUFFER_SIZE {
        Err(AppError::IpcFailed(owned("工具调用路径过长，无法通过命名管道传递。")))
    } else {
        Ok(())
    }
}

/// What the second start makes of the reply it read: done when accepted,
/// a failure that carries the reason when rejected.
pub fn reply_outcome(reply: IpcReply) -> (r: Result<(), AppError>)
    ensures
        reply is Accepted <==> r is Ok,
        reply matches IpcReply::Rejected { reason } ==> (r matches Err(AppError::IpcFailed(m)) && m@
            == "主实例拒绝了本次调用："@ + reason@),
{
    match reply {
        IpcReply::Accepted => Ok(()),
        IpcReply::Rejected { reason } => {
            let mut message = owned("主实例拒绝了本次调用：");
            push_str(&mut message, reason.as_str());
            Err(AppError::IpcFailed(message))
        },
    }
}

/// The failure when the reply cannot be decoded, `error` being the
/// decoder's description.
pub fn malformed_reply_error(error: &str) -> (e: AppError)
    ensures
        e matches AppError::IpcFailed(m) && m@ == "主实例回执格式无效："@ + error@,
{
    let mut message = owned("主实例回执格式无效：");
    push_str(&mut message, error);
    AppError::IpcFailed(message)
}

/// The failure when the invocation cannot be encoded.
pub fn encode_failure_error(error: &str) -> (e: AppError)
    ensures
        e matches AppError::IpcFailed(m) && m@ == "无法序列化工具调用："@ + error@,
{
    let mut message = owned("无法序列化工具调用：");
    push_str(&mut message, error);
    AppError::IpcFailed(message)
}

/// The failure after every try to reach the running instance failed,
/// `last_error` being the system error of the last try.
pub fn retries_exhausted_error(last_error: &str) -> (e: AppError)
    ensures
        e matches AppError::IpcFailed(m) && m@
            == "已检测到主实例，但命名管道在有限重试后仍不可用；最终 Win32 错误："@ + last_error@,
{
    let mut message = owned("已检测到主实例，但命名管道在有限重试后仍不可用；最终 Win32 错误：");
    push_str(&mut message, last_error);
    AppError::IpcFailed(message)
}

/// The invocation a second start forwards: its own, or a plain request to
/// bring the running window forward when it was started without one.
pub fn forwarded_invocation(invocation: Option<ToolInvocation>) -> (r: ToolInvocation)
    ensures
        invocation matches Some(i) ==> r == i,
        invocation is None ==> r.tool_id@ == ACTIVATE_TOOL_ID@ && r.payload is Empty,
{
    match invocation {
        Some(i) => i,
        None => ToolInvocation::activate(),
    }
}

} // verus!

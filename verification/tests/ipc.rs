use std::sync::mpsc;

use windows_toolbox::channel::Queue;
use windows_toolbox::invocation::{ToolInvocation, ToolPayload};
use windows_toolbox::ipc::{
    check_message_size, encode_failure_error, forwarded_invocation, malformed_reply_error, reply_for_delivery,
    reply_for_malformed, reply_for_payload, reply_outcome, retries_exhausted_error, IpcReply, PIPE_BUFFER_SIZE,
    SEND_RETRY_COUNT,
};
use windows_toolbox::model::error::AppError;

fn port_invocation() -> ToolInvocation {
    ToolInvocation { tool_id: "port-inspector".into(), payload: ToolPayload::Port { port: 443 } }
}

#[test]
fn well_formed_invocation_is_forwarded_and_accepted() {
    let (sender, receiver) = mpsc::channel();
    let mut window = Queue::new(sender);
    let reply = reply_for_payload(Ok(ToolInvocation::activate()), &mut window);
    assert_eq!(reply, IpcReply::Accepted);
    assert_eq!(receiver.recv().unwrap(), ToolInvocation::activate());
    assert!(reply_outcome(reply).is_ok());
}

#[test]
fn malformed_or_unroutable_invocation_is_rejected() {
    let (sender, receiver) = mpsc::channel();
    let mut window = Queue::new(sender);
    let reply = reply_for_payload(Err("expected value at line 1 column 1".into()), &mut window);
    assert_eq!(
        reply,
        IpcReply::Rejected { reason: "调用数据格式无效：expected value at line 1 column 1".into() }
    );
    assert!(receiver.try_recv().is_err());
    drop(receiver);
    let reply = reply_for_payload(Ok(port_invocation()), &mut window);
    assert_eq!(reply, IpcReply::Rejected { reason: "主窗口已关闭，无法接收调用。".into() });
    assert_eq!(
        reply_outcome(reply),
        Err(AppError::IpcFailed("主实例拒绝了本次调用：主窗口已关闭，无法接收调用。".into()))
    );
}

#[test]
fn delivery_decides_the_reply() {
    assert_eq!(reply_for_delivery(true), IpcReply::Accepted);
    assert_eq!(reply_for_delivery(false), IpcReply::Rejected { reason: "主窗口已关闭，无法接收调用。".into() });
    assert_eq!(reply_for_malformed("eof"), IpcReply::Rejected { reason: "调用数据格式无效：eof".into() });
}

#[test]
fn message_must_fit_in_one_pipe_buffer() {
    assert_eq!(PIPE_BUFFER_SIZE, 16384);
    assert_eq!(SEND_RETRY_COUNT, 12);
    assert!(check_message_size(0).is_ok());
    assert!(check_message_size(16384).is_ok());
    assert_eq!(
        check_message_size(16385),
        Err(AppError::IpcFailed("工具调用路径过长，无法通过命名管道传递。".into()))
    );
}

#[test]
fn exchange_failures_carry_their_cause() {
    assert_eq!(malformed_reply_error("bad"), AppError::IpcFailed("主实例回执格式无效：bad".into()));
    assert_eq!(encode_failure_error("io"), AppError::IpcFailed("无法序列化工具调用：io".into()));
    assert_eq!(
        retries_exhausted_error("231"),
        AppError::IpcFailed("已检测到主实例，但命名管道在有限重试后仍不可用；最终 Win32 错误：231".into())
    );
}

#[test]
fn second_start_without_invocation_forwards_activation() {
    let activation = forwarded_invocation(None);
    assert!(activation.is_activate());
    assert_eq!(forwarded_invocation(Some(port_invocation())), port_invocation());
}

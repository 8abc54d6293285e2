use std::sync::mpsc;

use windows_toolbox::channel::SendOutcome;
use windows_toolbox::model::dns::DnsRecordType;
use windows_toolbox::model::error::AppError;
use windows_toolbox::model::ping::PingAddressFamily;
use windows_toolbox::channel::SyncQueue;
use windows_toolbox::worker::{
    enqueue_result, try_enqueue, TaskDispatcher, TaskRequest, REQUEST_QUEUE_CAPACITY, WORKER_THREAD_COUNT,
};

#[test]
fn worker_pool_limits_are_stable() {
    assert_eq!(WORKER_THREAD_COUNT, 4);
    assert_eq!(REQUEST_QUEUE_CAPACITY, 32);
}

#[test]
fn requests_map_to_their_tool_boundary() {
    assert_eq!(TaskRequest::FileLocks { path: "a".into() }.target_tool_id(), "file-lock");
    assert_eq!(TaskRequest::Ports.target_tool_id(), "port-inspector");
    assert_eq!(TaskRequest::TerminateProcess { pid: 1 }.target_tool_id(), "process-inspector");
}

#[test]
fn full_queue_is_rejected_without_waiting_for_a_receiver() {
    let (sender, _receiver) = mpsc::sync_channel(1);
    let mut queue = SyncQueue::new(sender);
    let mut next_id: u64 = 1;
    assert_eq!(try_enqueue(&mut queue, &mut next_id, TaskRequest::Ports).unwrap(), 1);
    let error = try_enqueue(&mut queue, &mut next_id, TaskRequest::Ports).unwrap_err();
    assert!(matches!(error, AppError::QueueFull(_)));
}

#[test]
fn stopped_workers_are_reported() {
    let (sender, receiver) = mpsc::sync_channel(1);
    drop(receiver);
    let mut queue = SyncQueue::new(sender);
    let mut next_id: u64 = 5;
    let error = try_enqueue(&mut queue, &mut next_id, TaskRequest::Ports).unwrap_err();
    assert_eq!(error, AppError::WorkerBusy("后台工作线程已停止，请重新启动程序。".into()));
}

#[test]
fn enqueue_answers_follow_the_outcome() {
    assert_eq!(enqueue_result(SendOutcome::Sent, 9), Ok(9));
    assert_eq!(
        enqueue_result(SendOutcome::Full, 9),
        Err(AppError::QueueFull("后台任务队列已满，请稍后重试。".into()))
    );
    assert_eq!(
        enqueue_result(SendOutcome::Disconnected, 9),
        Err(AppError::WorkerBusy("后台工作线程已停止，请重新启动程序。".into()))
    );
}

#[test]
fn dispatcher_numbers_requests_from_one() {
    let (sender, receiver) = mpsc::sync_channel(4);
    let mut dispatcher = TaskDispatcher::new(sender);
    assert_eq!(dispatcher.dispatch(TaskRequest::Ports), Ok(1));
    assert_eq!(dispatcher.dispatch(TaskRequest::Process { pid: 8 }), Ok(2));
    let first = receiver.recv().unwrap();
    assert_eq!(first.request_id, 1);
    assert_eq!(first.request.target_tool_id(), "port-inspector");
    let second = receiver.recv().unwrap();
    assert_eq!(second.request_id, 2);
}

#[test]
fn dns_and_network_requests_name_their_tools() {
    let dns = TaskRequest::DnsLookup { host: "example.com".into(), record_type: DnsRecordType::default(), bypass_cache: false };
    assert_eq!(dns.target_tool_id(), "dns-lookup");
    let ping = TaskRequest::Ping {
        host: "example.com".into(),
        count: 4,
        timeout_ms: 1000,
        payload_size: 32,
        family: PingAddressFamily::default(),
    };
    assert_eq!(ping.target_tool_id(), "ping");
    assert_eq!(TaskRequest::TcpProbe { host: "h".into(), port: 1, timeout_ms: 1 }.target_tool_id(), "tcp-probe");
    assert_eq!(TaskRequest::Process { pid: 3 }.target_tool_id(), "process-inspector");
}

#[test]
fn enqueued_envelope_carries_the_request_and_its_identifier() {
    let (sender, receiver) = mpsc::sync_channel(2);
    let mut queue = SyncQueue::new(sender);
    let mut next_id: u64 = 7;
    assert_eq!(try_enqueue(&mut queue, &mut next_id, TaskRequest::Process { pid: 42 }), Ok(7));
    let envelope = receiver.recv().unwrap();
    assert_eq!(envelope.request_id, 7);
    assert!(matches!(envelope.request, TaskRequest::Process { pid: 42 }));
}

#[test]
fn identifier_counter_advances_and_wraps() {
    let (sender, _receiver) = mpsc::sync_channel(4);
    let mut queue = SyncQueue::new(sender);
    let mut next_id: u64 = u64::MAX;
    assert_eq!(try_enqueue(&mut queue, &mut next_id, TaskRequest::Ports), Ok(u64::MAX));
    assert_eq!(next_id, 0);
    assert_eq!(try_enqueue(&mut queue, &mut next_id, TaskRequest::Ports), Ok(0));
    assert_eq!(next_id, 1);
}

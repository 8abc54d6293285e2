use std::sync::mpsc;

use windows_toolbox::channel::SyncQueue;
use windows_toolbox::emitter::EventEmitter;
use windows_toolbox::model::communication::{
    CommunicationConfig, CommunicationIpFamily, TcpDebugConfig, TcpDebugMode,
    CommunicationCommand, CommunicationEvent, CommunicationEventEnvelope, CommunicationKind,
    CommunicationSendTarget, CommunicationSessionState, PayloadFormat, MAX_TCP_PENDING_BYTES,
};
use windows_toolbox::model::error::AppError;
use windows_toolbox::session::{
    accepts_new_client, check_config, command_action, serial_port_descriptor, sort_serial_ports, line_signal_note, live_sessions, peer_list, queue_server_payload,
    send_command, send_stop, serial_read_should_wait, serial_read_step, tcp_client_read_step, tcp_server_read_step,
    tcp_target_selects, udp_partial_send_note, udp_receive_step, udp_refusal_note, udp_send_plan,
    ActiveCommunicationSession, CommandAction, CommandPoll, ReadOutcome, ReadStep, SessionGenerations, TcpPeerState,
    ReadErrorKind, SerialPortKind, UdpSendPlan, peers_announcement_due, PEER_UPDATE_INTERVAL_MS,
};
use windows_toolbox::resolve::{addresses_of_family, probe_order, ResolvedAddress};

fn envelope(kind: CommunicationKind, generation: u64) -> CommunicationEventEnvelope {
    CommunicationEventEnvelope { kind, generation, event: CommunicationEvent::QueueDropped(0) }
}

#[test]
fn generation_filter_only_accepts_the_current_session() {
    let mut generations = SessionGenerations::new();
    let mut generation = 0;
    for _ in 0..8 {
        generation = generations.begin(CommunicationKind::Tcp);
    }
    assert_eq!(generation, 8);
    assert!(generations.accepts(&envelope(CommunicationKind::Tcp, 8)));
    assert!(!generations.accepts(&envelope(CommunicationKind::Tcp, 7)));
    assert!(!generations.accepts(&envelope(CommunicationKind::Udp, 8)));
    let udp = generations.begin(CommunicationKind::Udp);
    assert_eq!(udp, 9);
    assert!(generations.accepts(&envelope(CommunicationKind::Udp, 9)));
    assert!(generations.accepts(&envelope(CommunicationKind::Tcp, 8)));
    assert_eq!(generations.current(CommunicationKind::Serial), None);
}

#[test]
fn tcp_target_selection_is_exact() {
    assert!(tcp_target_selects(&CommunicationSendTarget::TcpClient(7), 7));
    assert!(!tcp_target_selects(&CommunicationSendTarget::TcpClient(7), 8));
    assert!(tcp_target_selects(&CommunicationSendTarget::AllTcpClients, 8));
    assert!(tcp_target_selects(&CommunicationSendTarget::Default, 8));
    assert!(!tcp_target_selects(&CommunicationSendTarget::UdpSource("127.0.0.1:9".into()), 8));
}

#[test]
fn tcp_pending_queue_rejects_more_than_one_mebibyte() {
    let mut connection = TcpPeerState::new(1, "loopback".into(), "12:00:00.000".into());
    assert!(connection.enqueue(&vec![0; MAX_TCP_PENDING_BYTES]).is_ok());
    assert_eq!(
        connection.enqueue(&[1]),
        Err("loopback 的待写队列已达到 1 MiB 上限，会话已停止。".to_string())
    );
    assert_eq!(connection.pending_bytes().len(), MAX_TCP_PENDING_BYTES);
}

#[test]
fn written_bytes_leave_the_queue_in_order() {
    let mut connection = TcpPeerState::new(3, "peer".into(), "t".into());
    connection.enqueue(b"abc").unwrap();
    connection.enqueue(b"de").unwrap();
    connection.record_written(2);
    assert_eq!(connection.pending_bytes(), b"cde");
    assert_eq!(connection.sent_bytes, 2);
    connection.record_received(5);
    assert_eq!(connection.received_bytes, 5);
    assert!(connection.has_pending());
    connection.record_written(3);
    assert!(!connection.has_pending());
    let peers = peer_list(&vec![connection]);
    assert_eq!(peers[0].id, 3);
    assert_eq!(peers[0].sent_bytes, 5);
}

#[test]
fn server_payload_goes_to_the_chosen_clients() {
    let (sender, receiver) = mpsc::sync_channel(8);
    let mut emitter = EventEmitter::new(CommunicationKind::Tcp, 1, sender);
    let mut peers = vec![
        TcpPeerState::new(1, "a".into(), "t".into()),
        TcpPeerState::new(2, "b".into(), "t".into()),
    ];
    assert!(queue_server_payload(&mut peers, &b"hi".to_vec(), &CommunicationSendTarget::TcpClient(2),
        PayloadFormat::Text, "t", &mut emitter));
    assert!(!peers[0].has_pending());
    assert_eq!(peers[1].pending_bytes(), b"hi");
    assert!(queue_server_payload(&mut peers, &b"!".to_vec(), &CommunicationSendTarget::TcpClient(9),
        PayloadFormat::Text, "t", &mut emitter));
    emitter.flush(true);
    match receiver.try_recv().unwrap().event {
        CommunicationEvent::Records(records) => {
            assert_eq!(records.len(), 2);
            assert_eq!(records[0].endpoint, "b");
            assert_eq!(records[1].endpoint, "TCP");
            assert_eq!(records[1].note.as_deref(), Some("没有可用的发送目标"));
        }
        other => panic!("unexpected event {other:?}"),
    }
}

#[test]
fn overflowing_client_fails_the_server_session() {
    let (sender, receiver) = mpsc::sync_channel(8);
    let mut emitter = EventEmitter::new(CommunicationKind::Tcp, 1, sender);
    let mut peers = vec![
        TcpPeerState::new(1, "a".into(), "t".into()),
        TcpPeerState::new(2, "b".into(), "t".into()),
    ];
    peers[1].enqueue(&vec![0; MAX_TCP_PENDING_BYTES]).unwrap();
    let keep_running = queue_server_payload(&mut peers, &b"x".to_vec(), &CommunicationSendTarget::AllTcpClients,
        PayloadFormat::Hex, "t", &mut emitter);
    assert!(!keep_running);
    assert_eq!(peers[0].pending_bytes(), b"x");
    assert_eq!(peers[1].pending_bytes().len(), MAX_TCP_PENDING_BYTES);
    let mut saw_failure = false;
    while let Ok(envelope) = receiver.try_recv() {
        if let CommunicationEvent::Status { state, detail } = envelope.event {
            assert_eq!(state, CommunicationSessionState::Failed);
            assert_eq!(detail, "b 的待写队列已达到 1 MiB 上限，会话已停止。");
            saw_failure = true;
        }
    }
    assert!(saw_failure);
}

#[test]
fn serial_configuration_maps_and_disconnect_errors_are_not_waits() {
    assert!(serial_read_should_wait(ReadErrorKind::TimedOut));
    assert!(serial_read_should_wait(ReadErrorKind::WouldBlock));
    assert!(!serial_read_should_wait(ReadErrorKind::Other));
}

#[test]
fn commands_map_to_protocol_actions() {
    let send = |payload: Vec<u8>| {
        CommandPoll::Received(CommunicationCommand::Send {
            payload,
            target: CommunicationSendTarget::Default,
            format: PayloadFormat::Text,
        })
    };
    assert_eq!(command_action(CommunicationKind::Tcp, send(Vec::new())), CommandAction::Skip);
    assert!(matches!(command_action(CommunicationKind::Udp, send(Vec::new())), CommandAction::Send { .. }));
    assert!(matches!(command_action(CommunicationKind::Serial, send(vec![1])), CommandAction::Send { .. }));
    assert_eq!(
        command_action(CommunicationKind::Serial, CommandPoll::Received(CommunicationCommand::SetRts(true))),
        CommandAction::SetRts(true)
    );
    assert_eq!(
        command_action(CommunicationKind::Tcp, CommandPoll::Received(CommunicationCommand::SetDtr(true))),
        CommandAction::Skip
    );
    assert_eq!(command_action(CommunicationKind::Udp, CommandPoll::Empty), CommandAction::Done);
    assert_eq!(command_action(CommunicationKind::Udp, CommandPoll::Disconnected), CommandAction::Stop);
    assert_eq!(
        command_action(CommunicationKind::Tcp, CommandPoll::Received(CommunicationCommand::Stop)),
        CommandAction::Stop
    );
}

#[test]
fn read_outcomes_map_to_session_steps() {
    assert_eq!(
        tcp_client_read_step(ReadOutcome::Zero),
        ReadStep::Finish { state: CommunicationSessionState::Stopped, detail: "远端已关闭 TCP 连接".into() }
    );
    assert_eq!(
        tcp_client_read_step(ReadOutcome::Failed("reset".into())),
        ReadStep::Finish { state: CommunicationSessionState::Failed, detail: "TCP 读取失败：reset".into() }
    );
    assert_eq!(tcp_server_read_step(ReadOutcome::Zero), ReadStep::Disconnect(None));
    assert_eq!(
        tcp_server_read_step(ReadOutcome::Failed("x".into())),
        ReadStep::Disconnect(Some("TCP 读取失败：x".into()))
    );
    assert_eq!(udp_receive_step(ReadOutcome::Zero), ReadStep::Record(Vec::new()));
    assert_eq!(serial_read_step(ReadOutcome::Zero), ReadStep::Continue);
    assert_eq!(serial_read_step(ReadOutcome::Data(vec![1])), ReadStep::Record(vec![1]));
    assert_eq!(
        serial_read_step(ReadOutcome::Failed("gone".into())),
        ReadStep::Finish { state: CommunicationSessionState::Failed, detail: "串口读取失败或设备已拔出：gone".into() }
    );
}

#[test]
fn udp_payloads_go_to_the_chosen_source_or_the_default_remote() {
    let default_remote = Some("192.0.2.1:9000".to_string());
    assert_eq!(
        udp_send_plan(3, &CommunicationSendTarget::UdpSource("198.51.100.2:53".into()), &default_remote),
        UdpSendPlan::SendTo("198.51.100.2:53".into())
    );
    assert_eq!(
        udp_send_plan(3, &CommunicationSendTarget::Default, &default_remote),
        UdpSendPlan::SendTo("192.0.2.1:9000".into())
    );
    assert_eq!(udp_send_plan(3, &CommunicationSendTarget::Default, &None), UdpSendPlan::NoDestination);
    assert_eq!(udp_send_plan(65_508, &CommunicationSendTarget::Default, &default_remote), UdpSendPlan::TooLarge);
    assert_eq!(udp_refusal_note(&UdpSendPlan::TooLarge).as_deref(), Some("UDP 单次载荷不能超过 65507 字节"));
    assert_eq!(udp_refusal_note(&UdpSendPlan::NoDestination).as_deref(), Some("未配置默认远端，也未选择接收来源"));
    assert_eq!(udp_partial_send_note(12), "UDP 仅发送 12 字节");
    assert_eq!(line_signal_note("RTS", true), "RTS 已置位");
    assert_eq!(line_signal_note("DTR", false), "DTR 已复位");
}

#[test]
fn commands_without_a_session_are_refused() {
    assert_eq!(
        send_command(None, CommunicationCommand::Stop),
        Err(AppError::InvalidInput("请先启动通信会话。".into()))
    );
    assert_eq!(send_stop(None), Ok(()));
    let (sender, receiver) = mpsc::sync_channel(1);
    let mut queue = SyncQueue::new(sender);
    assert_eq!(send_command(Some(&mut queue), CommunicationCommand::SetRts(true)), Ok(()));
    assert_eq!(
        send_stop(Some(&mut queue)),
        Err(AppError::QueueFull("通信命令队列已满，暂时无法提交停止请求。".into()))
    );
    assert_eq!(
        send_command(Some(&mut queue), CommunicationCommand::Stop),
        Err(AppError::QueueFull("通信命令队列已满，请稍后重试。".into()))
    );
    drop(receiver);
    assert_eq!(
        send_command(Some(&mut queue), CommunicationCommand::Stop),
        Err(AppError::WorkerBusy("通信会话已停止，请重新连接。".into()))
    );
    assert_eq!(send_stop(Some(&mut queue)), Err(AppError::WorkerBusy("通信会话已经停止。".into())));
}

#[test]
fn live_sessions_are_ordered_by_tool() {
    let session = |kind, state| ActiveCommunicationSession {
        kind,
        summary: String::new(),
        state,
        status_detail: String::new(),
    };
    let live = live_sessions(vec![
        session(CommunicationKind::Udp, CommunicationSessionState::Connected),
        session(CommunicationKind::Tcp, CommunicationSessionState::Failed),
        session(CommunicationKind::Serial, CommunicationSessionState::Starting),
        session(CommunicationKind::Tcp, CommunicationSessionState::Listening),
    ]);
    let kinds: Vec<CommunicationKind> = live.iter().map(|s| s.kind).collect();
    assert_eq!(kinds, [CommunicationKind::Serial, CommunicationKind::Tcp, CommunicationKind::Udp]);
    assert_eq!(live[1].state, CommunicationSessionState::Listening);
    assert!(accepts_new_client(31));
    assert!(!accepts_new_client(32));
}

#[test]
fn serial_ports_are_described_and_ordered_by_name() {
    let usb = serial_port_descriptor(
        "COM3".into(),
        SerialPortKind::Usb {
            vid: 0x0403,
            pid: 0x6001,
            serial_number: Some("A1".into()),
            manufacturer: Some("FTDI".into()),
            product: Some("USB Serial".into()),
        },
    );
    assert_eq!(usb.port_type, "USB");
    assert_eq!(usb.vid, Some(0x0403));
    assert_eq!(usb.display_name(), "COM3 · USB Serial");
    let bluetooth = serial_port_descriptor("COM10".into(), SerialPortKind::Bluetooth);
    assert_eq!(bluetooth.port_type, "蓝牙");
    assert_eq!(bluetooth.display_name(), "COM10");
    let pci = serial_port_descriptor("COM1".into(), SerialPortKind::Pci);
    assert_eq!(pci.port_type, "PCI");
    assert_eq!(serial_port_descriptor("COM2".into(), SerialPortKind::Unknown).port_type, "未知");
    let sorted = sort_serial_ports(vec![usb, bluetooth, pci]);
    let names: Vec<&str> = sorted.iter().map(|p| p.port_name.as_str()).collect();
    assert_eq!(names, ["COM1", "COM10", "COM3"]);
}

#[test]
fn invalid_configuration_does_not_start_a_session() {
    let bad = CommunicationConfig::Tcp(TcpDebugConfig {
        mode: TcpDebugMode::Client,
        family: CommunicationIpFamily::V4,
        address: String::new(),
        port: 0,
        connect_timeout_ms: 3_000,
    });
    assert!(matches!(check_config(&bad), Err(AppError::InvalidInput(_))));
    let good = CommunicationConfig::Tcp(TcpDebugConfig {
        mode: TcpDebugMode::Client,
        family: CommunicationIpFamily::V4,
        address: "192.0.2.10".into(),
        port: 8080,
        connect_timeout_ms: 3_000,
    });
    assert_eq!(check_config(&good), Ok(()));
}

fn resolved(is_ipv6: bool, address: &str) -> ResolvedAddress {
    ResolvedAddress { is_ipv6, address: address.into() }
}

#[test]
fn resolved_addresses_keep_only_the_session_family_in_order() {
    let candidates = vec![
        resolved(true, "[::1]:9"),
        resolved(false, "127.0.0.1:9"),
        resolved(true, "[fe80::1]:9"),
        resolved(false, "192.0.2.7:9"),
    ];
    assert_eq!(
        addresses_of_family(candidates.clone(), CommunicationIpFamily::V4),
        Ok(vec![resolved(false, "127.0.0.1:9"), resolved(false, "192.0.2.7:9")])
    );
    assert_eq!(
        addresses_of_family(candidates, CommunicationIpFamily::V6),
        Ok(vec![resolved(true, "[::1]:9"), resolved(true, "[fe80::1]:9")])
    );
    assert_eq!(
        addresses_of_family(vec![resolved(false, "127.0.0.1:9")], CommunicationIpFamily::V6),
        Err("没有匹配地址族的地址".to_string())
    );
    assert!(addresses_of_family(Vec::new(), CommunicationIpFamily::V4).is_err());
}

#[test]
fn probe_tries_ipv4_first_and_skips_repeated_addresses() {
    let candidates = vec![
        resolved(true, "[::1]:80"),
        resolved(false, "127.0.0.1:80"),
        resolved(false, "127.0.0.1:80"),
        resolved(true, "[::1]:80"),
        resolved(false, "192.0.2.7:80"),
        resolved(false, "127.0.0.1:80"),
    ];
    assert_eq!(
        probe_order(candidates),
        vec![
            resolved(false, "127.0.0.1:80"),
            resolved(false, "192.0.2.7:80"),
            resolved(false, "127.0.0.1:80"),
            resolved(true, "[::1]:80"),
        ]
    );
    assert!(probe_order(Vec::new()).is_empty());
}

fn status_event(kind: CommunicationKind, generation: u64, detail: &str) -> CommunicationEventEnvelope {
    CommunicationEventEnvelope {
        kind,
        generation,
        event: CommunicationEvent::Status { state: CommunicationSessionState::Connected, detail: detail.into() },
    }
}

#[test]
fn routed_events_drop_replaced_sessions_and_update_the_shown_status() {
    let mut generations = SessionGenerations::new();
    let old = generations.begin(CommunicationKind::Tcp);
    let current = generations.begin(CommunicationKind::Tcp);
    let received = vec![
        status_event(CommunicationKind::Tcp, old, "old"),
        CommunicationEventEnvelope { kind: CommunicationKind::Tcp, generation: current, event: CommunicationEvent::QueueDropped(2) },
        status_event(CommunicationKind::Tcp, current, "ready"),
        status_event(CommunicationKind::Tcp, old, "stale"),
    ];
    let mut state = CommunicationSessionState::Starting;
    let mut detail = String::from("starting");
    let routed = generations.route_events(received, &mut state, &mut detail);
    assert_eq!(
        routed,
        vec![
            CommunicationEventEnvelope { kind: CommunicationKind::Tcp, generation: current, event: CommunicationEvent::QueueDropped(2) },
            status_event(CommunicationKind::Tcp, current, "ready"),
        ]
    );
    assert_eq!(state, CommunicationSessionState::Connected);
    assert_eq!(detail, "ready");
    let routed = generations.route_events(vec![status_event(CommunicationKind::Tcp, old, "late")], &mut state, &mut detail);
    assert!(routed.is_empty());
    assert_eq!(detail, "ready");
}

#[test]
fn peers_are_announced_at_once_on_leave_and_throttled_otherwise() {
    assert_eq!(PEER_UPDATE_INTERVAL_MS, 100);
    assert!(peers_announcement_due(true, false, 0));
    assert!(!peers_announcement_due(false, true, 99));
    assert!(peers_announcement_due(false, true, 100));
    assert!(!peers_announcement_due(false, false, 1000));
}

#[test]
fn commands_reach_the_session_queue() {
    let (sender, receiver) = mpsc::sync_channel(2);
    let mut queue = SyncQueue::new(sender);
    assert_eq!(send_command(Some(&mut queue), CommunicationCommand::SetDtr(false)), Ok(()));
    assert_eq!(send_stop(Some(&mut queue)), Ok(()));
    assert_eq!(receiver.try_recv().unwrap(), CommunicationCommand::SetDtr(false));
    assert_eq!(receiver.try_recv().unwrap(), CommunicationCommand::Stop);
}

#[test]
fn ports_with_the_same_name_keep_their_order() {
    let first = serial_port_descriptor("COM2".into(), SerialPortKind::Pci);
    let second = serial_port_descriptor("COM2".into(), SerialPortKind::Bluetooth);
    let other = serial_port_descriptor("COM1".into(), SerialPortKind::Unknown);
    let sorted = sort_serial_ports(vec![first, other, second]);
    let kinds: Vec<(&str, &str)> = sorted.iter().map(|p| (p.port_name.as_str(), p.port_type.as_str())).collect();
    assert_eq!(kinds, [("COM1", "未知"), ("COM2", "PCI"), ("COM2", "蓝牙")]);
}

#[test]
fn pending_bytes_leave_in_the_order_they_were_queued() {
    let mut peer = TcpPeerState::new(1, "peer".into(), "00:00:00.000".into());
    peer.enqueue(b"abc").unwrap();
    peer.enqueue(b"de").unwrap();
    peer.record_written(2);
    assert_eq!(peer.pending_bytes(), b"cde");
    assert_eq!(peer.sent_bytes, 2);
}

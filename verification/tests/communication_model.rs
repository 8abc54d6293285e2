use windows_toolbox::model::communication::{
    decode_payload, render_payload, CommunicationConfig, CommunicationDirection, CommunicationIpFamily,
    CommunicationLog, CommunicationRecord, PayloadFormat, SerialDataBits, SerialDebugConfig,
    SerialFlowControl, SerialParity, SerialStopBits, TcpDebugConfig, TcpDebugMode, UdpDebugConfig,
    UdpMulticastConfig, MAX_LOG_PAYLOAD_BYTES, MAX_LOG_RECORDS,
};

fn record(payload: Vec<u8>) -> CommunicationRecord {
    CommunicationRecord {
        timestamp: "12:34:56.789".into(),
        direction: CommunicationDirection::Incoming,
        endpoint: "loopback".into(),
        payload,
        payload_format: None,
        note: None,
    }
}

#[test]
fn text_hex_and_crlf_are_decoded_without_ambiguity() {
    assert_eq!(
        decode_payload("你好", PayloadFormat::Text, false).unwrap(),
        "你好".as_bytes()
    );
    assert_eq!(
        decode_payload("41 0a FF", PayloadFormat::Hex, true).unwrap(),
        b"A\n\xFF\r\n"
    );
    assert!(decode_payload("410A", PayloadFormat::Hex, false).is_err());
    assert!(decode_payload("A", PayloadFormat::Hex, false).is_err());
}

#[test]
fn text_rendering_preserves_printable_unicode_and_escapes_controls() {
    assert_eq!(
        render_payload("中文🙂\\path\r\n\t".as_bytes(), PayloadFormat::Text),
        "中文🙂\\path\\r\\n\\t"
    );
    assert!(!render_payload("中文".as_bytes(), PayloadFormat::Text).contains("\\u{"));
}

#[test]
fn invalid_utf8_is_marked_while_original_bytes_remain_available() {
    let payload = [0x66, 0x80];
    assert!(render_payload(&payload, PayloadFormat::Text).contains("无效 UTF-8"));
    assert_eq!(render_payload(&payload, PayloadFormat::Hex), "66 80");
}

#[test]
fn outgoing_records_keep_the_format_used_when_sent() {
    let outgoing = CommunicationRecord {
        direction: CommunicationDirection::Outgoing,
        payload: "中文".as_bytes().to_vec(),
        payload_format: Some(PayloadFormat::Text),
        ..record(Vec::new())
    };

    assert_eq!(outgoing.display_content(PayloadFormat::Hex), "中文");
    assert_eq!(outgoing.display_format(PayloadFormat::Hex), PayloadFormat::Text);
}

#[test]
fn incoming_records_follow_the_current_receive_format() {
    let incoming = record(b"AB".to_vec());

    assert_eq!(incoming.display_content(PayloadFormat::Text), "AB");
    assert_eq!(incoming.display_content(PayloadFormat::Hex), "41 42");
}

#[test]
fn log_export_uses_each_records_effective_display_format() {
    let mut log = CommunicationLog::default();
    log.push_batch(vec![
        CommunicationRecord {
            direction: CommunicationDirection::Outgoing,
            payload: "发送".as_bytes().to_vec(),
            payload_format: Some(PayloadFormat::Text),
            ..record(Vec::new())
        },
        CommunicationRecord {
            payload: b"RX".to_vec(),
            ..record(Vec::new())
        },
    ]);

    let export = log.export(PayloadFormat::Hex);
    assert!(export.contains("发送"));
    assert!(export.contains("52 58"));
    assert!(!export.contains("\\u{"));
}

#[test]
fn session_summary_preserves_current_tcp_and_serial_configuration() {
    let tcp = CommunicationConfig::Tcp(TcpDebugConfig {
        mode: TcpDebugMode::Client,
        family: CommunicationIpFamily::V4,
        address: "192.0.2.10".into(),
        port: 8080,
        connect_timeout_ms: 3_000,
    });
    let serial = CommunicationConfig::Serial(SerialDebugConfig {
        port_name: "COM3".into(),
        baud_rate: 115_200,
        data_bits: SerialDataBits::Eight,
        parity: SerialParity::NoParity,
        stop_bits: SerialStopBits::One,
        flow_control: SerialFlowControl::NoFlowControl,
        read_timeout_ms: 100,
    });

    assert_eq!(tcp.session_summary(), "192.0.2.10:8080");
    assert_eq!(serial.session_summary(), "COM3，115200，8N1");
}

#[test]
fn log_enforces_record_and_payload_limits_independently() {
    let mut log = CommunicationLog::default();
    for _ in 0..=MAX_LOG_RECORDS {
        log.push_batch(vec![record(vec![1])]);
    }
    assert_eq!(log.records().len(), MAX_LOG_RECORDS);
    assert_eq!(log.evicted_records(), 1);

    log.clear();
    log.push_batch(vec![record(vec![0; MAX_LOG_PAYLOAD_BYTES])]);
    log.push_batch(vec![record(vec![1])]);
    assert_eq!(log.records().len(), 1);
    assert_eq!(log.payload_bytes(), 1);
}

#[test]
fn queue_drop_counter_is_separate_from_log_eviction() {
    let mut log = CommunicationLog::default();
    log.add_queue_dropped(7);
    assert_eq!(log.queue_dropped_records(), 7);
    assert_eq!(log.evicted_records(), 0);
}

#[test]
fn udp_multicast_validation_rejects_non_multicast_and_ipv6_modes() {
    let base = UdpDebugConfig {
        family: CommunicationIpFamily::V4,
        local_address: "0.0.0.0".into(),
        local_port: 9000,
        remote_address: String::new(),
        remote_port: 0,
        broadcast: false,
        multicast: Some(UdpMulticastConfig {
            group: "192.0.2.1".into(),
            interface: "0.0.0.0".into(),
            ttl: 1,
            loopback: true,
        }),
    };
    assert!(base.validate().is_err());
    let mut ipv6 = base;
    ipv6.family = CommunicationIpFamily::V6;
    assert!(ipv6.validate().is_err());
}

#[test]
fn udp_broadcast_and_multicast_boundaries_are_validated() {
    let mut config = UdpDebugConfig {
        family: CommunicationIpFamily::V6,
        local_address: "::".into(),
        local_port: 9000,
        remote_address: String::new(),
        remote_port: 0,
        broadcast: true,
        multicast: None,
    };
    assert!(config.validate().is_err());
    config.family = CommunicationIpFamily::V4;
    config.local_address = "0.0.0.0".into();
    config.broadcast = false;
    config.multicast = Some(UdpMulticastConfig {
        group: "239.255.0.1".into(),
        interface: "0.0.0.0".into(),
        ttl: 255,
        loopback: false,
    });
    assert!(config.validate().is_ok());
    config.multicast.as_mut().unwrap().ttl = 0;
    assert!(config.validate().is_err());
}

#[test]
fn hex_display_pastes_back_as_the_same_bytes() {
    let bytes = vec![0x00, 0x41, 0x0a, 0xff, 0x7f];
    let shown = render_payload(&bytes, PayloadFormat::Hex);
    assert_eq!(shown, "00 41 0A FF 7F");
    assert_eq!(decode_payload(&shown, PayloadFormat::Hex, false).unwrap(), bytes);
    assert_eq!(decode_payload("", PayloadFormat::Hex, false).unwrap(), Vec::<u8>::new());
}

#[test]
fn plain_text_is_displayed_as_typed() {
    let typed = "温度=21.5°C, ok";
    let bytes = decode_payload(typed, PayloadFormat::Text, false).unwrap();
    assert_eq!(render_payload(&bytes, PayloadFormat::Text), typed);
    assert_eq!(decode_payload("a", PayloadFormat::Text, true).unwrap(), b"a\r\n");
}

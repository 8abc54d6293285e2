use windows_toolbox::model::dns::{dns_query_error, mx_value, plan_dns_query, txt_value, DnsRecordType};
use windows_toolbox::model::error::AppError;
use windows_toolbox::model::mtr::{MtrConfig, MtrHopTrace};
use windows_toolbox::model::network::{
    decode_port, ipv4_from_network_order, sort_endpoints, tcp_state, IpVersion, NetworkEndpoint, NetworkProtocol, TcpState,
};
use windows_toolbox::model::ping::{ping_count, ping_payload_size, ping_timeout_ms, PingConfig};
use windows_toolbox::model::tcp_probe::{attempt_status, check_probe_port, probe_window_ms, ConnectOutcome};

#[test]
fn diagnostic_labels_never_include_sensitive_error_values() {
    let errors = [
        AppError::InvalidPath(r"C:\Users\张三\secret.txt".into()),
        AppError::InvalidInput("端口 54321 无效".into()),
        AppError::ProcessExited(98_765),
        AppError::WindowsApi {
            context: r"无法读取 C:\secret".into(),
            code: "Win32 5".into(),
        },
    ];
    for error in errors {
        let label = error.diagnostic_label();
        assert!(!label.contains("secret"));
        assert!(!label.contains("54321"));
        assert!(!label.contains("98765"));
        assert!(!label.contains("张三"));
    }
}

#[test]
fn default_config_matches_bounded_probe_defaults() {
    let config = MtrConfig::default();
    assert_eq!(config.max_hops, 30);
    assert_eq!(config.probes_per_hop, 3);
    assert!(config.total_rounds.is_none());
    assert!(config.validate().is_ok());
}

#[test]
fn config_rejects_each_out_of_range_boundary() {
    let mut config = MtrConfig {
        max_hops: 0,
        ..MtrConfig::default()
    };
    assert!(config.validate().is_err());
    config = MtrConfig::default();
    config.timeout_ms = 5_001;
    assert!(config.validate().is_err());
    config = MtrConfig::default();
    config.payload_size = 1_473;
    assert!(config.validate().is_err());
    config = MtrConfig::default();
    config.total_rounds = Some(101);
    assert!(config.validate().is_err());
}

#[test]
fn ipv6_endpoint_uses_brackets_around_address() {
    let endpoint = NetworkEndpoint {
        protocol: NetworkProtocol::Tcp,
        ip_version: IpVersion::V6,
        local_address: "::1".into(),
        local_port: 443,
        remote_address: "2001:db8::1".into(),
        remote_port: Some(50_000),
        state: None,
        pid: 1,
        process_name: String::new(),
    };
    assert_eq!(endpoint.local_display(), "[::1]:443");
    assert_eq!(endpoint.remote_display(), "[2001:db8::1]:50000");
}

#[test]
fn ping_config_validates_finite_and_continuous_boundaries() {
    let mut config = PingConfig::default();
    assert!(config.validate().is_ok());
    config.count = 0;
    assert!(config.validate().is_err());
    config = PingConfig::default();
    config.interval_ms = 99;
    assert!(config.validate().is_err());
    config = PingConfig::default();
    config.continuous = true;
    assert!(config.validate().is_ok());
}

#[test]
fn error_text_names_category_and_value() {
    assert_eq!(AppError::InvalidInput("端口必须大于 0。".into()).display_text(), "输入无效: 端口必须大于 0。");
    assert_eq!(AppError::ProcessExited(42).display_text(), "进程已退出: 42");
    assert_eq!(
        AppError::WindowsApi { context: "无法读取".into(), code: "Win32 error 5".into() }.display_text(),
        "Windows API 调用失败: 无法读取 (Win32 error 5)"
    );
}

#[test]
fn user_message_gives_title_and_detail() {
    let (title, detail) = AppError::ProcessExited(7).user_message();
    assert_eq!(title, "进程已退出");
    assert_eq!(detail, "PID 7 在查询期间已退出。");
    let (title, detail) = AppError::QueueFull("稍后重试".into()).user_message();
    assert_eq!(title, "后台任务队列已满");
    assert_eq!(detail, "稍后重试");
}

#[test]
fn hop_address_change_clears_stale_hostname() {
    let mut hop = MtrHopTrace::new(1);
    hop.record(Some("192.0.2.1".into()), true, "中间跳");
    hop.hostname = Some("router-a.example".into());

    hop.record(Some("192.0.2.2".into()), true, "中间跳");

    assert_eq!(hop.address.as_deref(), Some("192.0.2.2"));
    assert!(hop.hostname.is_none());
}

#[test]
fn separate_hops_keep_independent_statistics_for_repeated_addresses() {
    let mut first = MtrHopTrace::new(1);
    let mut second = MtrHopTrace::new(2);

    first.record(Some("192.0.2.1".into()), true, "中间跳");
    second.record(Some("192.0.2.1".into()), false, "无响应");

    assert_eq!(first.received, 1);
    assert_eq!(second.received, 0);
    assert_eq!(first.address, second.address);
}

#[test]
fn hop_counts_sent_and_answered_probes() {
    let mut hop = MtrHopTrace::new(3);
    assert_eq!(hop.status, "等待探测");
    hop.record(Some("192.0.2.1".into()), true, "响应");
    hop.hostname = Some("a.example".into());
    hop.record(None, false, "超时");
    hop.record(Some("192.0.2.1".into()), true, "响应");
    assert_eq!(hop.sent, 3);
    assert_eq!(hop.received, 2);
    assert_eq!(hop.status, "响应");
    assert_eq!(hop.hostname.as_deref(), Some("a.example"));
}

#[test]
fn tcp_probe_rejects_zero_port_before_resolution() {
    assert!(check_probe_port(0).is_err());
    assert_eq!(check_probe_port(443), Ok(()));
}

#[test]
fn probe_attempts_are_named_and_bounded() {
    assert_eq!(attempt_status(ConnectOutcome::Connected), "成功");
    assert_eq!(attempt_status(ConnectOutcome::Refused), "拒绝");
    assert_eq!(attempt_status(ConnectOutcome::TimedOut), "超时");
    assert_eq!(attempt_status(ConnectOutcome::Unreachable), "不可达");
    assert_eq!(probe_window_ms(5), 100);
    assert_eq!(probe_window_ms(1_000), 1_000);
    assert_eq!(probe_window_ms(60_000), 30_000);
}

fn endpoint(protocol: NetworkProtocol, port: u16, pid: u32) -> NetworkEndpoint {
    NetworkEndpoint {
        protocol,
        ip_version: IpVersion::V4,
        local_address: "0.0.0.0".into(),
        local_port: port,
        remote_address: String::new(),
        remote_port: None,
        state: None,
        pid,
        process_name: String::new(),
    }
}

#[test]
fn endpoints_are_ordered_by_port_protocol_and_pid() {
    let sorted = sort_endpoints(vec![
        endpoint(NetworkProtocol::Udp, 53, 1),
        endpoint(NetworkProtocol::Tcp, 443, 9),
        endpoint(NetworkProtocol::Tcp, 53, 7),
        endpoint(NetworkProtocol::Tcp, 53, 2),
    ]);
    let keys: Vec<(u16, NetworkProtocol, u32)> = sorted.iter().map(|e| (e.local_port, e.protocol, e.pid)).collect();
    assert_eq!(
        keys,
        [
            (53, NetworkProtocol::Tcp, 2),
            (53, NetworkProtocol::Tcp, 7),
            (53, NetworkProtocol::Udp, 1),
            (443, NetworkProtocol::Tcp, 9),
        ]
    );
}

#[test]
fn table_fields_are_decoded_from_network_order() {
    assert_eq!(ipv4_from_network_order(0x0100_007F), "127.0.0.1");
    assert_eq!(ipv4_from_network_order(0x0A02_A8C0), "192.168.2.10");
    assert_eq!(decode_port(0x0000_5000), 80);
    assert_eq!(decode_port(0xFFFF_BB01), 443);
    assert_eq!(tcp_state(2), TcpState::Listen);
    assert_eq!(tcp_state(5), TcpState::Established);
    assert_eq!(tcp_state(99), TcpState::Unknown);
}

#[test]
fn dns_lookups_pick_record_types_by_host() {
    let (host, types) = plan_dns_query("  example.com ", DnsRecordType::Auto, false).unwrap();
    assert_eq!(host, "example.com");
    assert_eq!(types, [DnsRecordType::A, DnsRecordType::Aaaa]);
    let (_, types) = plan_dns_query("192.0.2.1", DnsRecordType::Auto, true).unwrap();
    assert_eq!(types, [DnsRecordType::Ptr]);
    let (_, types) = plan_dns_query("example.com", DnsRecordType::Mx, false).unwrap();
    assert_eq!(types, [DnsRecordType::Mx]);
    assert_eq!(
        plan_dns_query("   ", DnsRecordType::A, false),
        Err(AppError::InvalidInput("主机名不能为空。".into()))
    );
}

#[test]
fn dns_failures_and_values_are_described() {
    assert_eq!(
        dns_query_error(9003, "nope.example", DnsRecordType::A),
        AppError::NameResolution("NXDOMAIN：找不到主机 nope.example。".into())
    );
    assert_eq!(
        dns_query_error(9008, "example.com", DnsRecordType::Aaaa),
        AppError::NameResolution("主机存在，但没有 AAAA 记录。".into())
    );
    assert_eq!(dns_query_error(1460, "h", DnsRecordType::A), AppError::Timeout("系统 DNS 查询超时。".into()));
    assert_eq!(
        dns_query_error(9002, "h", DnsRecordType::Ns),
        AppError::NameResolution("查询 NS 记录失败，Windows DNS 错误码 9002。".into())
    );
    assert_eq!(mx_value("mail.example.com", 10), "mail.example.com (优先级 10)");
    assert_eq!(txt_value(&vec!["v=spf1".into(), "-all".into()]), "v=spf1 -all");
    assert_eq!(txt_value(&Vec::new()), "");
}

#[test]
fn ping_parameters_are_kept_within_bounds() {
    assert_eq!(ping_count(0), 1);
    assert_eq!(ping_count(4), 4);
    assert_eq!(ping_count(20), 20);
    assert_eq!(ping_count(100), 100);
    assert_eq!(ping_count(250), 100);
    assert_eq!(ping_timeout_ms(10), 100);
    assert_eq!(ping_timeout_ms(20_000), 10_000);
    assert_eq!(ping_payload_size(2_000), 1_472);
    assert_eq!(ping_payload_size(32), 32);
}

#[test]
fn dns_record_types_map_to_wire_codes() {
    assert_eq!(DnsRecordType::Auto.wire_code(), 1);
    assert_eq!(DnsRecordType::A.wire_code(), 1);
    assert_eq!(DnsRecordType::Aaaa.wire_code(), 28);
    assert_eq!(DnsRecordType::Cname.wire_code(), 5);
    assert_eq!(DnsRecordType::Mx.wire_code(), 15);
    assert_eq!(DnsRecordType::Txt.wire_code(), 16);
    assert_eq!(DnsRecordType::Ns.wire_code(), 2);
    assert_eq!(DnsRecordType::Ptr.wire_code(), 12);
}

use windows_toolbox::invocation::{ToolInvocation, ToolPayload};

fn args(values: &[&str]) -> Vec<String> {
    values.iter().map(|value| value.to_string()).collect()
}

#[test]
fn parses_file_lock_with_unicode_path() {
    let invocation = ToolInvocation::parse(args(&[
        "--tool",
        "file-lock",
        "--path",
        r"C:\\Users\\张三\\桌面\\我的 项目\\data.db",
    ]))
    .unwrap()
    .unwrap();

    assert_eq!(invocation.tool_id, "file-lock");
    assert!(matches!(invocation.payload, ToolPayload::FilePath { .. }));
}

#[test]
fn rejects_missing_required_payload() {
    assert!(ToolInvocation::parse(args(&["--tool", "file-lock"])).is_err());
}

#[test]
fn normalizes_process_alias() {
    let invocation = ToolInvocation::parse(args(&["--tool", "process", "--pid", "42"])).unwrap().unwrap();

    assert_eq!(invocation.tool_id, "process-inspector");
}

#[test]
fn rejects_zero_port_and_pid() {
    assert!(ToolInvocation::parse(args(&["--tool", "port-inspector", "--port", "0"])).is_err());
    assert!(ToolInvocation::parse(args(&["--tool", "process-inspector", "--pid", "0"])).is_err());
}

#[test]
fn parse_without_arguments_keeps_existing_none_semantics() {
    assert_eq!(ToolInvocation::parse(Vec::new()).unwrap(), None);
}

#[test]
fn parses_network_tool_invocations() {
    let dns = ToolInvocation::parse(args(&["--tool", "dns-lookup", "--host", "example.com"])).unwrap().unwrap();
    assert_eq!(dns.tool_id, "dns-lookup");
    assert!(matches!(dns.payload, ToolPayload::Host { .. }));
    let tcp = ToolInvocation::parse(args(&["--tool", "tcp-probe", "--host", "localhost", "--port", "443"]))
        .unwrap()
        .unwrap();
    assert_eq!(tcp.payload, ToolPayload::HostPort { host: "localhost".into(), port: 443 });
    let mtr = ToolInvocation::parse(args(&["--tool", "mtr", "--host", "example.com"])).unwrap().unwrap();
    assert_eq!(mtr.tool_id, "mtr");
    assert!(matches!(mtr.payload, ToolPayload::Host { .. }));
}

#[test]
fn activate_message_is_internal() {
    let invocation = ToolInvocation::activate();
    assert!(invocation.is_activate());
    assert!(!ToolInvocation::process(42).is_activate());
    assert_eq!(ToolInvocation::process(42).payload, ToolPayload::Process { pid: 42 });
    assert_eq!(
        ToolInvocation::file_lock("D:\\a.db".into()).payload,
        ToolPayload::FilePath { path: "D:\\a.db".into() }
    );
}

#[test]
fn rejects_out_of_range_port() {
    assert!(ToolInvocation::parse(args(&["--tool", "port-inspector", "--port", "65536"])).is_err());
    let ok = ToolInvocation::parse(args(&["--tool", "port-inspector", "--port", "65535"])).unwrap().unwrap();
    assert_eq!(ok.payload, ToolPayload::Port { port: 65535 });
}

#[test]
fn context_menu_arguments_open_the_clicked_file() {
    let path = r"D:\共享 文件\report.xlsx";
    let parsed = ToolInvocation::parse(args(&["--tool", "file-lock", "--path", path])).unwrap().unwrap();
    assert_eq!(parsed, ToolInvocation::file_lock(path.into()));
    let process = ToolInvocation::parse(args(&["--tool", "process-inspector", "--pid", "4242"])).unwrap().unwrap();
    assert_eq!(process, ToolInvocation::process(4242));
}

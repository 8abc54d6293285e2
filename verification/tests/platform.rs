use windows_toolbox::model::error::AppError;
use windows_toolbox::platform::errors::{
    api_error, network_error, process_error, registry_error, status_error, status_ok, wmi_error, E_ACCESSDENIED,
    WBEM_E_ACCESS_DENIED,
};
use windows_toolbox::platform::wide::{from_wide, to_wide};

#[test]
fn wide_buffers_stop_at_the_first_nul() {
    let mut buffer: Vec<u16> = "notepad.exe".encode_utf16().collect();
    buffer.extend([0, 0x41, 0x42]);
    assert_eq!(from_wide(&buffer), "notepad.exe");
    let full: Vec<u16> = "张三".encode_utf16().collect();
    assert_eq!(from_wide(&full), "张三");
    assert_eq!(from_wide(&[0xD800, 0x61]), "\u{FFFD}a");
    assert_eq!(from_wide(&[]), "");
    assert_eq!(from_wide(&[0xD83D, 0xDE00, 0x21]), "\u{1F600}!");
    assert_eq!(from_wide(&[0xDE00, 0xD83D]), "\u{FFFD}\u{FFFD}");
}

#[test]
fn system_codes_become_application_errors() {
    assert_eq!(
        network_error("无法读取 TCP 表", 122),
        AppError::WindowsApi { context: "无法读取 TCP 表".into(), code: "Win32 error 122".into() }
    );
    assert_eq!(status_error(5, "ctx"), AppError::AccessDenied("ctx".into()));
    assert_eq!(status_error(2, "ctx"), AppError::NotFound("ctx".into()));
    assert_eq!(
        status_error(87, "ctx"),
        AppError::WindowsApi { context: "ctx".into(), code: "Win32 error 87".into() }
    );
    assert_eq!(status_ok(0, "ctx"), Ok(()));
    assert_eq!(status_ok(5, "ctx"), Err(AppError::AccessDenied("ctx".into())));
    assert_eq!(
        registry_error(5, "无法写入右键菜单注册表值"),
        AppError::ShellRegistrationFailed("无法写入右键菜单注册表值，Win32 error 5".into())
    );
    assert_eq!(
        api_error("无法创建进程快照", "拒绝访问。"),
        AppError::WindowsApi { context: "无法创建进程快照".into(), code: "拒绝访问。".into() }
    );
    assert_eq!(
        process_error(42, "无法打开进程", E_ACCESSDENIED, "拒绝访问。"),
        AppError::AccessDenied("无法打开进程，PID 42".into())
    );
    assert_eq!(
        process_error(42, "无法打开进程", 0x8007_0057, "参数错误。"),
        AppError::WindowsApi { context: "无法打开进程，PID 42".into(), code: "参数错误。".into() }
    );
    assert_eq!(
        wmi_error("无法查询", WBEM_E_ACCESS_DENIED, "x"),
        AppError::AccessDenied("无法查询，WMI 拒绝访问进程数据".into())
    );
    assert_eq!(
        wmi_error("无法查询", 1, "x"),
        AppError::WindowsApi { context: "无法查询".into(), code: "x".into() }
    );
}

#[test]
fn wide_buffers_round_trip_text_without_nul() {
    assert_eq!(to_wide("AB"), vec![0x41, 0x42, 0]);
    assert_eq!(to_wide("\u{1F600}"), vec![0xD83D, 0xDE00, 0]);
    assert_eq!(to_wide(""), vec![0]);
    for text in ["notepad.exe", "张三的文件.txt", "emoji \u{1F600} end", ""] {
        assert_eq!(from_wide(&to_wide(text)), text);
    }
    assert_eq!(from_wide(&[0x41, 0x42, 0, 0x43]), "AB");
}

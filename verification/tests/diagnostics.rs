use windows_toolbox::diagnostics::{rotated_path, sanitize_reason, LOG_FILE_COUNT, LOG_FILE_LIMIT};

fn file_name(path: &str) -> &str {
    path.rsplit(['\\', '/']).next().unwrap()
}

#[test]
fn diagnostic_rotation_is_bounded_to_three_files() {
    assert_eq!(LOG_FILE_LIMIT, 512 * 1024);
    assert_eq!(LOG_FILE_COUNT, 3);
    let directory = "C:/diagnostics";
    assert_eq!(file_name(&rotated_path(directory, 0)), "windows-toolbox.log");
    assert_eq!(file_name(&rotated_path(directory, 2)), "windows-toolbox.2.log");
}

#[test]
fn diagnostic_reason_redacts_queries_and_paths() {
    assert_eq!(
        sanitize_reason(r"设置失败 C:\Users\张三\secret.json: access denied"),
        "设置失败[路径已隐藏]"
    );
    assert_eq!(sanitize_reason("端口错误，实际为：54321"), "端口错误，[参数已隐藏]");
}

#[test]
fn rotated_paths_stay_in_the_directory() {
    assert_eq!(rotated_path(r"C:\logs", 1), r"C:\logs\windows-toolbox.1.log");
    assert_eq!(rotated_path(r"C:\logs\", 0), r"C:\logs\windows-toolbox.log");
}

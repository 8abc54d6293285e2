use windows_toolbox::shell::{file_lock_command, quote_windows_argument};

#[test]
fn quotes_unicode_path_with_spaces() {
    assert_eq!(
        quote_windows_argument(r"C:\Users\张三\Desktop\工具\Toolbox.exe"),
        r#""C:\Users\张三\Desktop\工具\Toolbox.exe""#
    );
}

#[test]
fn doubles_terminal_backslashes_before_quote() {
    assert_eq!(quote_windows_argument(r"C:\Toolbox\"), r#""C:\Toolbox\\""#);
}

#[test]
fn escapes_embedded_quotes_and_their_backslashes() {
    assert_eq!(quote_windows_argument(r#"a\"b"#), r#""a\\\"b""#);
    assert_eq!(quote_windows_argument(r#"say "hi""#), r#""say \"hi\"""#);
    assert_eq!(quote_windows_argument(""), r#""""#);
}

#[test]
fn context_menu_command_opens_the_file_lock_tool() {
    assert_eq!(
        file_lock_command(r"C:\Program Files\Toolbox\Toolbox.exe"),
        r#""C:\Program Files\Toolbox\Toolbox.exe" --tool file-lock --path "%1""#
    );
}

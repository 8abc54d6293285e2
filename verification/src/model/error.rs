//! The application error type shown to users and written to diagnostics.
use vstd::prelude::*;

use crate::text::{decimal, push_decimal, push_str};

verus! {

/// Business classification of platform failures, so that the interface never
/// shows raw HRESULT or Win32 numbers.
#[derive(Clone, Debug, PartialEq, Eq)]
pub enum AppError {
    /// A path that cannot be interpreted.
    InvalidPath(String),
    /// A file that does not exist.
    NotFound(String),
    /// Access refused by the system.
    AccessDenied(String),
    /// The process exited while it was queried.
    ProcessExited(u32),
    /// Input rejected by a check.
    InvalidInput(String),
    /// An operation the system does not support.
    Unsupported(String),
    /// A failed system call, with its context and code.
    WindowsApi { context: String, code: String },
    /// Registering the Explorer context menu failed.
    ShellRegistrationFailed(String),
    /// Forwarding to the running instance failed.
    IpcFailed(String),
    /// Reading or writing the settings failed.
    Settings(String),
    /// The background workers are unavailable.
    WorkerBusy(String),
    /// The background queue is full.
    QueueFull(String),
    /// A name could not be resolved.
    NameResolution(String),
    /// A network request timed out.
    Timeout(String),
    /// A connection was refused.
    ConnectionRefused(String),
    /// The network is unreachable.
    NetworkUnreachable(String),
}

/// The stable diagnostic category of an error.
pub open spec fn diagnostic_label_of(e: AppError) -> Seq<char> {
    match e {
        AppError::InvalidPath(_) => "invalid-path"@,
        AppError::NotFound(_) => "not-found"@,
        AppError::AccessDenied(_) => "access-denied"@,
        AppError::ProcessExited(_) => "process-exited"@,
        AppError::InvalidInput(_) => "invalid-input"@,
        AppError::Unsupported(_) => "unsupported"@,
        AppError::WindowsApi { .. } => "windows-api"@,
        AppError::ShellRegistrationFailed(_) => "shell-registration"@,
        AppError::IpcFailed(_) => "ipc"@,
        AppError::Settings(_) => "settings"@,
        AppError::WorkerBusy(_) => "worker-busy"@,
        AppError::QueueFull(_) => "queue-full"@,
        AppError::NameResolution(_) => "name-resolution"@,
        AppError::Timeout(_) => "timeout"@,
        AppError::ConnectionRefused(_) => "connection-refused"@,
        AppError::NetworkUnreachable(_) => "network-unreachable"@,
    }
}

/// The title shown to users for an error.
pub open spec fn user_title_of(e: AppError) -> Seq<char> {
    match e {
        AppError::InvalidPath(_) => "路径无效"@,
        AppError::NotFound(_) => "文件不存在"@,
        AppError::AccessDenied(_) => "访问被拒绝"@,
        AppError::ProcessExited(_) => "进程已退出"@,
        AppError::InvalidInput(_) => "输入无效"@,
        AppError::Unsupported(_) => "暂不支持"@,
        AppError::WindowsApi { .. } => "系统查询失败"@,
        AppError::ShellRegistrationFailed(_) => "右键菜单操作失败"@,
        AppError::IpcFailed(_) => "无法转发到已运行的程序"@,
        AppError::Settings(_) => "配置保存失败"@,
        AppError::WorkerBusy(_) => "后台任务繁忙"@,
        AppError::QueueFull(_) => "后台任务队列已满"@,
        AppError::NameResolution(_) => "名称解析失败"@,
        AppError::Timeout(_) => "请求超时"@,
        AppError::ConnectionRefused(_) => "连接被拒绝"@,
        AppError::NetworkUnreachable(_) => "网络不可达"@,
    }
}

/// The actionable detail shown to users for an error.
pub open spec fn user_detail_of(e: AppError) -> Seq<char> {
    match e {
        AppError::InvalidPath(detail) => "无法识别路径："@ + detail@,
        AppError::NotFound(detail) => "找不到文件："@ + detail@,
        AppError::AccessDenied(detail) => "可能需要管理员权限。详细信息："@ + detail@,
        AppError::ProcessExited(pid) => "PID "@ + decimal(pid as nat) + " 在查询期间已退出。"@,
        AppError::InvalidInput(detail) => detail@,
        AppError::Unsupported(detail) => detail@,
        AppError::WindowsApi { context, code } => context@ + "。详细信息："@ + code@,
        AppError::ShellRegistrationFailed(detail) => detail@,
        AppError::IpcFailed(detail) => detail@,
        AppError::Settings(detail) => detail@,
        AppError::WorkerBusy(detail) => detail@,
        AppError::QueueFull(detail) => detail@,
        AppError::NameResolution(detail) => detail@,
        AppError::Timeout(detail) => detail@,
        AppError::ConnectionRefused(detail) => detail@,
        AppError::NetworkUnreachable(detail) => detail@,
    }
}

/// The text an error is displayed with: its category and its value.
pub open spec fn display_of(e: AppError) -> Seq<char> {
    match e {
        AppError::InvalidPath(d) => "路径无效: "@ + d@,
        AppError::NotFound(d) => "文件不存在: "@ + d@,
        AppError::AccessDenied(d) => "访问被拒绝: "@ + d@,
        AppError::ProcessExited(pid) => "进程已退出: "@ + decimal(pid as nat),
        AppError::InvalidInput(d) => "输入无效: "@ + d@,
        AppError::Unsupported(d) => "当前系统不支持此操作: "@ + d@,
        AppError::WindowsApi { context, code } => "Windows API 调用失败: "@ + context@ + " ("@ + code@ + ")"@,
        AppError::ShellRegistrationFailed(d) => "资源管理器右键菜单操作失败: "@ + d@,
        AppError::IpcFailed(d) => "单实例通信失败: "@ + d@,
        AppError::Settings(d) => "配置读写失败: "@ + d@,
        AppError::WorkerBusy(d) => "后台任务暂时不可用: "@ + d@,
        AppError::QueueFull(d) => "后台任务队列已满: "@ + d@,
        AppError::NameResolution(d) => "名称解析失败: "@ + d@,
        AppError::Timeout(d) => "网络请求超时: "@ + d@,
        AppError::ConnectionRefused(d) => "连接被拒绝: "@ + d@,
        AppError::NetworkUnreachable(d) => "网络不可达: "@ + d@,
    }
}

/// The characters a diagnostic label is made of: lower-case ASCII letters and
/// hyphens, so a label can hold no path, query value, PID or port.
pub open spec fn is_label_char(c: char) -> bool {
    ('a' <= c && c <= 'z') || c == '-'
}

impl AppError {
    /// The stable diagnostic category, safe to record in the runtime log.
    pub fn diagnostic_label(&self) -> (l: &'static str)
        ensures
            l@ == diagnostic_label_of(*self),
    {
        match self {
            AppError::InvalidPath(_) => "invalid-path",
            AppError::NotFound(_) => "not-found",
            AppError::AccessDenied(_) => "access-denied",
            AppError::ProcessExited(_) => "process-exited",
            AppError::InvalidInput(_) => "invalid-input",
            AppError::Unsupported(_) => "unsupported",
            AppError::WindowsApi { .. } => "windows-api",
            AppError::ShellRegistrationFailed(_) => "shell-registration",
            AppError::IpcFailed(_) => "ipc",
            AppError::Settings(_) => "settings",
            AppError::WorkerBusy(_) => "worker-busy",
            AppError::QueueFull(_) => "queue-full",
            AppError::NameResolution(_) => "name-resolution",
            AppError::Timeout(_) => "timeout",
            AppError::ConnectionRefused(_) => "connection-refused",
            AppError::NetworkUnreachable(_) => "network-unreachable",
        }
    }

    /// The text the error is displayed with, such as `输入无效: …`.
    pub fn display_text(&self) -> (t: String)
        ensures
            t@ == display_of(*self),
    {
        let mut t = String::new();
        let (prefix, value): (&str, &str) = match self {
            AppError::InvalidPath(d) => ("路径无效: ", d.as_str()),
            AppError::NotFound(d) => ("文件不存在: ", d.as_str()),
            AppError::AccessDenied(d) => ("访问被拒绝: ", d.as_str()),
            AppError::ProcessExited(pid) => {
                push_str(&mut t, "进程已退出: ");
                push_decimal(&mut t, *pid as u64);
                return t;
            },
            AppError::InvalidInput(d) => ("输入无效: ", d.as_str()),
            AppError::Unsupported(d) => ("当前系统不支持此操作: ", d.as_str()),
            AppError::WindowsApi { context, code } => {
                push_str(&mut t, "Windows API 调用失败: ");
                push_str(&mut t, context.as_str());
                push_str(&mut t, " (");
                push_str(&mut t, code.as_str());
                push_str(&mut t, ")");
                return t;
            },
            AppError::ShellRegistrationFailed(d) => ("资源管理器右键菜单操作失败: ", d.as_str()),
            AppError::IpcFailed(d) => ("单实例通信失败: ", d.as_str()),
            AppError::Settings(d) => ("配置读写失败: ", d.as_str()),
            AppError::WorkerBusy(d) => ("后台任务暂时不可用: ", d.as_str()),
            AppError::QueueFull(d) => ("后台任务队列已满: ", d.as_str()),
            AppError::NameResolution(d) => ("名称解析失败: ", d.as_str()),
            AppError::Timeout(d) => ("网络请求超时: ", d.as_str()),
            AppError::ConnectionRefused(d) => ("连接被拒绝: ", d.as_str()),
            AppError::NetworkUnreachable(d) => ("网络不可达: ", d.as_str()),
        };
        push_str(&mut t, prefix);
        push_str(&mut t, value);
        t
    }

    /// The title and actionable detail shown in the ordinary interface.
    pub fn user_message(&self) -> (m: (&'static str, String))
        ensures
            m.0@ == user_title_of(*self),
            m.1@ == user_detail_of(*self),
    {
        let mut detail = String::new();
        let title = match self {
            AppError::InvalidPath(value) => {
                push_str(&mut detail, "无法识别路径：");
                push_str(&mut detail, value.as_str());
                "路径无效"
            },
            AppError::NotFound(value) => {
                push_str(&mut detail, "找不到文件：");
                push_str(&mut detail, value.as_str());
                "文件不存在"
            },
            AppError::AccessDenied(value) => {
                push_str(&mut detail, "可能需要管理员权限。详细信息：");
                push_str(&mut detail, value.as_str());
                "访问被拒绝"
            },
            AppError::ProcessExited(pid) => {
                push_str(&mut detail, "PID ");
                push_decimal(&mut detail, *pid as u64);
                push_str(&mut detail, " 在查询期间已退出。");
                "进程已退出"
            },
            AppError::InvalidInput(value) => {
                push_str(&mut detail, value.as_str());
                "输入无效"
            },
            AppError::Unsupported(value) => {
                push_str(&mut detail, value.as_str());
                "暂不支持"
            },
            AppError::WindowsApi { context, code } => {
                push_str(&mut detail, context.as_str());
                push_str(&mut detail, "。详细信息：");
                push_str(&mut detail, code.as_str());
                "系统查询失败"
            },
            AppError::ShellRegistrationFailed(value) => {
                push_str(&mut detail, value.as_str());
                "右键菜单操作失败"
            },
            AppError::IpcFailed(value) => {
                push_str(&mut detail, value.as_str());
                "无法转发到已运行的程序"
            },
            AppError::Settings(value) => {
                push_str(&mut detail, value.as_str());
                "配置保存失败"
            },
            AppError::WorkerBusy(value) => {
                push_str(&mut detail, value.as_str());
                "后台任务繁忙"
            },
            AppError::QueueFull(value) => {
                push_str(&mut detail, value.as_str());
                "后台任务队列已满"
            },
            AppError::NameResolution(value) => {
                push_str(&mut detail, value.as_str());
                "名称解析失败"
            },
            AppError::Timeout(value) => {
                push_str(&mut detail, value.as_str());
                "请求超时"
            },
            AppError::ConnectionRefused(value) => {
                push_str(&mut detail, value.as_str());
                "连接被拒绝"
            },
            AppError::NetworkUnreachable(value) => {
                push_str(&mut detail, value.as_str());
                "网络不可达"
            },
        };
        assert(detail@ =~= user_detail_of(*self));
        (title, detail)
    }
}

/// Diagnostic labels never carry the values of an error: every label is made
/// only of lower-case ASCII letters and hyphens, whatever the error holds.
pub proof fn lemma_diagnostic_label_is_plain(e: AppError)
    ensures
        forall|i: int|
            0 <= i < diagnostic_label_of(e).len() ==> is_label_char(
                #[trigger] diagnostic_label_of(e)[i],
            ),
{
    reveal_strlit("invalid-path");
    reveal_strlit("not-found");
    reveal_strlit("access-denied");
    reveal_strlit("process-exited");
    reveal_strlit("invalid-input");
    reveal_strlit("unsupported");
    reveal_strlit("windows-api");
    reveal_strlit("shell-registration");
    reveal_strlit("ipc");
    reveal_strlit("settings");
    reveal_strlit("worker-busy");
    reveal_strlit("queue-full");
    reveal_strlit("name-resolution");
    reveal_strlit("timeout");
    reveal_strlit("connection-refused");
    reveal_strlit("network-unreachable");
}

} // verus!

//! How codes returned by the system are turned into the application's errors,
//! so that the interface never shows a bare HRESULT or Win32 number as the
//! whole story.
use vstd::prelude::*;

use crate::model::error::AppError;
use crate::text::{decimal, push_decimal, push_str};

verus! {

/// `ERROR_FILE_NOT_FOUND`.
pub const ERROR_FILE_NOT_FOUND: u32 = 2;

/// `ERROR_ACCESS_DENIED`.
pub const ERROR_ACCESS_DENIED: u32 = 5;

/// `E_ACCESSDENIED`, as the bits of the HRESULT.
pub const E_ACCESSDENIED: u32 = 0x8007_0005;

/// `WBEM_E_ACCESS_DENIED`, as the bits of the HRESULT.
pub const WBEM_E_ACCESS_DENIED: u32 = 0x8004_1003;

/// `Win32 error <code>`.
pub open spec fn win32_code_text(code: u32) -> Seq<char> {
    "Win32 error "@ + decimal(code as nat)
}

fn push_win32_code(out: &mut String, code: u32)
    ensures
        final(out)@ == old(out)@ + win32_code_text(code),
{
    push_str(out, "Win32 error ");
    push_decimal(out, code as u64);
}

/// A failed network table query: the context and the Win32 code.
pub fn network_error(context: &str, code: u32) -> (e: AppError)
    ensures
        e matches AppError::WindowsApi { context: c, code: k } && c@ == context@ && k@ == win32_code_text(code),
{
    let mut text = String::new();
    push_win32_code(&mut text, code);
    AppError::WindowsApi { context: crate::text::owned(context), code: text }
}

/// A failed Restart Manager call: refused access and missing files are told
/// apart, anything else keeps its code.
pub fn status_error(status: u32, context: &str) -> (e: AppError)
    ensures
        status == ERROR_ACCESS_DENIED ==> (e matches AppError::AccessDenied(d) && d@ == context@),
        status == ERROR_FILE_NOT_FOUND ==> (e matches AppError::NotFound(d) && d@ == context@),
        status != ERROR_ACCESS_DENIED && status != ERROR_FILE_NOT_FOUND ==> (e matches AppError::WindowsApi {
            context: c,
            code: k,
        } && c@ == context@ && k@ == win32_code_text(status)),
{
    if status == ERROR_ACCESS_DENIED {
        AppError::AccessDenied(crate::text::owned(context))
    } else if status == ERROR_FILE_NOT_FOUND {
        AppError::NotFound(crate::text::owned(context))
    } else {
        let mut text = String::new();
        push_win32_code(&mut text, status);
        AppError::WindowsApi { context: crate::text::owned(context), code: text }
    }
}

/// Success for status 0, else the error of [`status_error`].
pub fn status_ok(status: u32, context: &str) -> (r: Result<(), AppError>)
    ensures
        status == 0 <==> r is Ok,
        status == ERROR_ACCESS_DENIED ==> (r matches Err(AppError::AccessDenied(d)) && d@ == context@),
        status == ERROR_FILE_NOT_FOUND ==> (r matches Err(AppError::NotFound(d)) && d@ == context@),
        status != 0 && status != ERROR_ACCESS_DENIED && status != ERROR_FILE_NOT_FOUND ==> (r matches Err(
            AppError::WindowsApi { context: c, code: k },
        ) && c@ == context@ && k@ == win32_code_text(status)),
{
    if status == 0 {
        Ok(())
    } else {
        Err(status_error(status, context))
    }
}

/// A failed registry call of the context menu registration.
pub fn registry_error(status: u32, context: &str) -> (e: AppError)
    ensures
        e matches AppError::ShellRegistrationFailed(d) && d@ == context@ + "，"@ + win32_code_text(status),
{
    let mut text = crate::text::owned(context);
    push_str(&mut text, "，");
    push_win32_code(&mut text, status);
    AppError::ShellRegistrationFailed(text)
}

/// A failed system call with the system's own description of the failure.
pub fn api_error(context: &str, detail: &str) -> (e: AppError)
    ensures
        e matches AppError::WindowsApi { context: c, code: k } && c@ == context@ && k@ == detail@,
{
    AppError::WindowsApi { context: crate::text::owned(context), code: crate::text::owned(detail) }
}

/// `<context>，PID <pid>`.
pub open spec fn process_context(context: Seq<char>, pid: u32) -> Seq<char> {
    context + "，PID "@ + decimal(pid as nat)
}

/// A failed query of process `pid`: refused access is told apart, anything
/// else keeps the system's description.
pub fn process_error(pid: u32, context: &str, hresult: u32, detail: &str) -> (e: AppError)
    ensures
        hresult == E_ACCESSDENIED ==> (e matches AppError::AccessDenied(d) && d@ == process_context(context@, pid)),
        hresult != E_ACCESSDENIED ==> (e matches AppError::WindowsApi { context: c, code: k } && c@
            == process_context(context@, pid) && k@ == detail@),
{
    let mut text = crate::text::owned(context);
    push_str(&mut text, "，PID ");
    push_decimal(&mut text, pid as u64);
    if hresult == E_ACCESSDENIED {
        AppError::AccessDenied(text)
    } else {
        AppError::WindowsApi { context: text, code: crate::text::owned(detail) }
    }
}

/// A failed WMI call: refused access, by COM or by WMI, is told apart.
pub fn wmi_error(context: &str, hresult: u32, detail: &str) -> (e: AppError)
    ensures
        (hresult == E_ACCESSDENIED || hresult == WBEM_E_ACCESS_DENIED) ==> (e matches AppError::AccessDenied(d) && d@
            == context@ + "，WMI 拒绝访问进程数据"@),
        !(hresult == E_ACCESSDENIED || hresult == WBEM_E_ACCESS_DENIED) ==> (e matches AppError::WindowsApi {
            context: c,
            code: k,
        } && c@ == context@ && k@ == detail@),
{
    if hresult == E_ACCESSDENIED || hresult == WBEM_E_ACCESS_DENIED {
        let mut text = crate::text::owned(context);
        push_str(&mut text, "，WMI 拒绝访问进程数据");
        AppError::AccessDenied(text)
    } else {
        AppError::WindowsApi { context: crate::text::owned(context), code: crate::text::owned(detail) }
    }
}

} // verus!

//! The tool invocation protocol shared by the command line, the Explorer
//! context menu and jumps between tools.
use vstd::prelude::*;

use crate::model::error::AppError;
use crate::net_addr::{all_digits, digits_value};
use crate::text::{decimal, digit_char, owned, push_str, str_equal};

verus! {

/// Reserved tool identifier of the message that only brings the main window
/// forward; it is not a tool and is never accepted on the command line.
pub const ACTIVATE_TOOL_ID: &'static str = "__windows_toolbox_activate__";

/// Structured input for a tool.
#[derive(Clone, Debug, PartialEq, Eq)]
pub struct ToolInvocation {
    pub tool_id: String,
    pub payload: ToolPayload,
}

/// The inputs a tool can receive.
#[derive(Clone, Debug, PartialEq, Eq)]
pub enum ToolPayload {
    Empty,
    FilePath { path: String },
    Port { port: u16 },
    Process { pid: u32 },
    Host { host: String },
    HostPort { host: String, port: u16 },
}

/// A payload as a plain value: a tag, a text and a number.
pub open spec fn payload_spec(p: ToolPayload) -> (int, Seq<char>, int) {
    match p {
        ToolPayload::Empty => (0, Seq::<char>::empty(), 0),
        ToolPayload::FilePath { path } => (1, path@, 0),
        ToolPayload::Port { port } => (2, Seq::<char>::empty(), port as int),
        ToolPayload::Process { pid } => (3, Seq::<char>::empty(), pid as int),
        ToolPayload::Host { host } => (4, host@, 0),
        ToolPayload::HostPort { host, port } => (5, host@, port as int),
    }
}

/// The text `u16::from_str` / `u32::from_str` accept, with its value: an
/// optional `+` and at least one ASCII digit, the value at most `max`.
pub open spec fn parse_unsigned(s: Seq<char>, max: int) -> Option<int> {
    let d = if s.len() > 0 && s[0] == '+' {
        s.drop_first()
    } else {
        s
    };
    if d.len() == 0 || !all_digits(d) || digits_value(d) > max {
        None
    } else {
        Some(digits_value(d) as int)
    }
}

/// Options collected from the arguments: tool, path, port, PID, host.
pub type ParsedOptions = (
    Option<Seq<char>>,
    Option<Seq<char>>,
    Option<u16>,
    Option<u32>,
    Option<Seq<char>>,
);

/// The value following a flag: present and non-empty, or the error for it.
pub open spec fn value_after(args: Seq<Seq<char>>, j: int, flag: Seq<char>) -> Result<
    Seq<char>,
    Seq<char>,
> {
    if 0 <= j < args.len() && args[j].len() > 0 {
        Ok(args[j])
    } else {
        Err(flag + " 缺少参数值。"@)
    }
}

/// Reads the arguments from position `i` on into the options.
pub open spec fn scan_args(args: Seq<Seq<char>>, i: int, st: ParsedOptions) -> Result<
    ParsedOptions,
    Seq<char>,
>
    decreases args.len() - i,
{
    if i < 0 || i >= args.len() {
        Ok(st)
    } else {
        let a = args[i];
        if a == "--tool"@ {
            match value_after(args, i + 1, "--tool"@) {
                Err(e) => Err(e),
                Ok(v) => scan_args(args, i + 2, (Some(v), st.1, st.2, st.3, st.4)),
            }
        } else if a == "--path"@ {
            match value_after(args, i + 1, "--path"@) {
                Err(e) => Err(e),
                Ok(v) => scan_args(args, i + 2, (st.0, Some(v), st.2, st.3, st.4)),
            }
        } else if a == "--port"@ {
            match value_after(args, i + 1, "--port"@) {
                Err(e) => Err(e),
                Ok(raw) => match parse_unsigned(raw, 65535) {
                    None => Err("端口必须是 1 到 65535 的整数，实际为："@ + raw),
                    Some(v) => if v == 0 {
                        Err("端口必须大于 0。"@)
                    } else {
                        scan_args(args, i + 2, (st.0, st.1, Some(v as u16), st.3, st.4))
                    },
                },
            }
        } else if a == "--pid"@ {
            match value_after(args, i + 1, "--pid"@) {
                Err(e) => Err(e),
                Ok(raw) => match parse_unsigned(raw, 4294967295) {
                    None => Err("PID 必须是正整数，实际为："@ + raw),
                    Some(v) => if v == 0 {
                        Err("PID 必须大于 0。"@)
                    } else {
                        scan_args(args, i + 2, (st.0, st.1, st.2, Some(v as u32), st.4))
                    },
                },
            }
        } else if a == "--host"@ {
            match value_after(args, i + 1, "--host"@) {
                Err(e) => Err(e),
                Ok(v) => scan_args(args, i + 2, (st.0, st.1, st.2, st.3, Some(v))),
            }
        } else {
            Err("不支持的启动参数："@ + a)
        }
    }
}

/// The invocation the options describe: tool identifier and payload, or the
/// error for a missing or unknown part.
pub open spec fn invocation_from(st: ParsedOptions) -> Result<
    Option<(Seq<char>, (int, Seq<char>, int))>,
    Seq<char>,
> {
    match st.0 {
        None => if st.1 is Some || st.2 is Some || st.3 is Some || st.4 is Some {
            Err("使用 --path、--port、--pid 或 --host 时必须指定 --tool。"@)
        } else {
            Ok(None)
        },
        Some(t) => if t == "file-lock"@ {
            match st.1 {
                Some(path) => Ok(Some((t, (1, path, 0)))),
                None => Err("file-lock 需要 --path。"@),
            }
        } else if t == "port-inspector"@ {
            match st.2 {
                Some(port) => Ok(Some((t, (2, Seq::<char>::empty(), port as int)))),
                None => Err("port-inspector 需要 --port。"@),
            }
        } else if t == "process-inspector"@ || t == "process"@ {
            match st.3 {
                Some(pid) => Ok(
                    Some(("process-inspector"@, (3, Seq::<char>::empty(), pid as int))),
                ),
                None => Err("process-inspector 需要 --pid。"@),
            }
        } else if t == "dns-lookup"@ || t == "ping"@ || t == "mtr"@ {
            match st.4 {
                Some(host) => Ok(Some((t, (4, host, 0)))),
                None => Err(t + " 需要 --host。"@),
            }
        } else if t == "tcp-probe"@ {
            match st.4 {
                None => Err("tcp-probe 需要 --host。"@),
                Some(host) => match st.2 {
                    None => Err("tcp-probe 需要 --port。"@),
                    Some(port) => Ok(Some((t, (5, host, port as int)))),
                },
            }
        } else {
            Err("未知工具 ID："@ + t)
        },
    }
}

/// What parsing the arguments gives.
pub open spec fn parse_spec(args: Seq<Seq<char>>) -> Result<
    Option<(Seq<char>, (int, Seq<char>, int))>,
    Seq<char>,
> {
    match scan_args(args, 0, (None, None, None, None, None)) {
        Err(e) => Err(e),
        Ok(st) => invocation_from(st),
    }
}

/// The character views of a list of arguments.
pub open spec fn arg_views(args: Seq<String>) -> Seq<Seq<char>> {
    args.map_values(|a: String| a@)
}

proof fn lemma_digits_monotone(d: Seq<char>, i: int)
    requires
        all_digits(d),
        0 <= i <= d.len(),
    ensures
        digits_value(d.take(i)) <= digits_value(d),
    decreases d.len() - i,
{
    if i < d.len() {
        lemma_digits_monotone(d, i + 1);
        assert(d.take(i + 1).drop_last() =~= d.take(i));
    } else {
        assert(d.take(i) =~= d);
    }
}

/// `parse_unsigned`: the value of an unsigned decimal text, if within `max`.
pub fn parse_decimal(s: &str, max: u64) -> (r: Option<u64>)
    ensures
        match parse_unsigned(s@, max as int) {
            None => r is None,
            Some(v) => r == Some(v as u64),
        },
{
    let chars = crate::text::chars_of(s);
    let start: usize = if chars.len() > 0 && chars[0] == '+' {
        1
    } else {
        0
    };
    let ghost d = chars@.skip(start as int);
    proof {
        if start == 1 {
            assert(d =~= chars@.drop_first());
        } else {
            assert(d =~= chars@);
        }
    }
    if start == chars.len() {
        return None;
    }
    let mut value: u64 = 0;
    let mut i = start;
    while i < chars.len()
        invariant
            chars@ == s@,
            start == (if s@.len() > 0 && s@[0] == '+' {
                1int
            } else {
                0int
            }),
            start <= i <= chars@.len(),
            start < chars@.len(),
            d == chars@.skip(start as int),
            d == (if s@.len() > 0 && s@[0] == '+' {
                s@.drop_first()
            } else {
                s@
            }),
            value <= max,
            all_digits(d.take(i - start)),
            value == digits_value(d.take(i - start)),
        decreases chars.len() - i,
    {
        let c = chars[i];
        let ghost k = i - start;
        proof {
            assert(d[k] == c);
            assert(d.take(k + 1).drop_last() =~= d.take(k));
        }
        if !('0' <= c && c <= '9') {
            proof {
                assert(!crate::text::is_ascii_digit(d[k]));
                assert(!all_digits(d));
            }
            return None;
        }
        let digit = (c as u32 - '0' as u32) as u64;
        let next: u128 = (value as u128) * 10 + digit as u128;
        proof {
            assert(all_digits(d.take(k + 1)));
            assert(digits_value(d.take(k + 1)) == value * 10 + digit);
        }
        if next > max as u128 {
            proof {
                assert(next == value * 10 + digit);
                if all_digits(d) {
                    lemma_digits_monotone(d, k + 1);
                    assert(digits_value(d) > max);
                }
            }
            return None;
        }
        value = next as u64;
        i = i + 1;
    }
    assert(d.take(i - start) =~= d);
    Some(value)
}


/// The view of an optional string.
pub open spec fn opt_view(s: Option<String>) -> Option<Seq<char>> {
    match s {
        Some(t) => Some(t@),
        None => None,
    }
}

/// The value after the flag at `j`, or the error for its absence.
fn next_value(args: &Vec<String>, j: usize, flag: &str) -> (r: Result<String, AppError>)
    ensures
        match value_after(arg_views(args@), j as int, flag@) {
            Ok(v) => r matches Ok(s) && s@ == v,
            Err(m) => r matches Err(AppError::InvalidInput(e)) && e@ == m,
        },
{
    if j < args.len() && !args[j].as_str().is_empty() {
        Ok(args[j].clone())
    } else {
        let mut message = String::new();
        push_str(&mut message, flag);
        push_str(&mut message, " 缺少参数值。");
        Err(AppError::InvalidInput(message))
    }
}

/// An `AppError::InvalidInput` with the given text.
fn invalid_input(text: &str) -> (e: AppError)
    ensures
        e matches AppError::InvalidInput(m) && m@ == text@,
{
    AppError::InvalidInput(owned(text))
}

/// An `AppError::InvalidInput` with `prefix` followed by `value`.
fn invalid_input_with(prefix: &str, value: &str) -> (e: AppError)
    ensures
        e matches AppError::InvalidInput(m) && m@ == prefix@ + value@,
{
    let mut message = String::new();
    push_str(&mut message, prefix);
    push_str(&mut message, value);
    AppError::InvalidInput(message)
}

impl ToolInvocation {
    /// The message that only asks the running instance to show its window.
    pub fn activate() -> (r: Self)
        ensures
            r.tool_id@ == ACTIVATE_TOOL_ID@,
            r.payload == ToolPayload::Empty,
    {
        ToolInvocation { tool_id: owned(ACTIVATE_TOOL_ID), payload: ToolPayload::Empty }
    }

    /// Whether this message only asks to show and focus the main window.
    pub fn is_activate(&self) -> (b: bool)
        ensures
            b == (self.tool_id@ == ACTIVATE_TOOL_ID@ && self.payload is Empty),
    {
        str_equal(self.tool_id.as_str(), ACTIVATE_TOOL_ID) && matches!(self.payload, ToolPayload::Empty)
    }

    /// Opens the file lock tool on `path`.
    pub fn file_lock(path: String) -> (r: Self)
        ensures
            r.tool_id@ == "file-lock"@,
            r.payload == (ToolPayload::FilePath { path }),
    {
        ToolInvocation { tool_id: owned("file-lock"), payload: ToolPayload::FilePath { path } }
    }

    /// Opens the process inspector on `pid`.
    pub fn process(pid: u32) -> (r: Self)
        ensures
            r.tool_id@ == "process-inspector"@,
            r.payload == (ToolPayload::Process { pid }),
    {
        ToolInvocation { tool_id: owned("process-inspector"), payload: ToolPayload::Process { pid } }
    }

    /// Parses start-up arguments (without the program name): `--tool`,
    /// `--path`, `--port`, `--pid` and `--host`, each followed by a value.
    /// No arguments give `None`; the `process` alias is normalised.
    pub fn parse(args: Vec<String>) -> (r: Result<Option<Self>, AppError>)
        ensures
            match parse_spec(arg_views(args@)) {
                Err(m) => r matches Err(AppError::InvalidInput(e)) && e@ == m,
                Ok(None) => r matches Ok(None),
                Ok(Some((id, p))) => r matches Ok(Some(inv)) && inv.tool_id@ == id
                    && payload_spec(inv.payload) == p,
            },
    {
        let ghost av = arg_views(args@);
        let mut tool_id: Option<String> = None;
        let mut path: Option<String> = None;
        let mut port: Option<u16> = None;
        let mut pid: Option<u32> = None;
        let mut host: Option<String> = None;
        let mut i: usize = 0;
        while i < args.len()
            invariant
                av == arg_views(args@),
                i <= args@.len(),
                scan_args(av, 0, (None, None, None, None, None)) == scan_args(
                    av,
                    i as int,
                    (opt_view(tool_id), opt_view(path), port, pid, opt_view(host)),
                ),
            decreases args.len() - i,
        {
            let argument = args[i].as_str();
            assert(av[i as int] == argument@);
            if str_equal(argument, "--tool") {
                let value = match next_value(&args, i + 1, "--tool") {
                    Ok(v) => v,
                    Err(e) => {
                        return Err(e);
                    },
                };
                tool_id = Some(value);
            } else if str_equal(argument, "--path") {
                let value = match next_value(&args, i + 1, "--path") {
                    Ok(v) => v,
                    Err(e) => {
                        return Err(e);
                    },
                };
                path = Some(value);
            } else if str_equal(argument, "--port") {
                let raw = match next_value(&args, i + 1, "--port") {
                    Ok(v) => v,
                    Err(e) => {
                        return Err(e);
                    },
                };
                match parse_decimal(raw.as_str(), 65535) {
                    None => {
                        return Err(invalid_input_with("端口必须是 1 到 65535 的整数，实际为：", raw.as_str()));
                    },
                    Some(v) => {
                        if v == 0 {
                            return Err(invalid_input("端口必须大于 0。"));
                        }
                        port = Some(v as u16);
                    },
                }
            } else if str_equal(argument, "--pid") {
                let raw = match next_value(&args, i + 1, "--pid") {
                    Ok(v) => v,
                    Err(e) => {
                        return Err(e);
                    },
                };
                match parse_decimal(raw.as_str(), 4294967295) {
                    None => {
                        return Err(invalid_input_with("PID 必须是正整数，实际为：", raw.as_str()));
                    },
                    Some(v) => {
                        if v == 0 {
                            return Err(invalid_input("PID 必须大于 0。"));
                        }
                        pid = Some(v as u32);
                    },
                }
            } else if str_equal(argument, "--host") {
                let value = match next_value(&args, i + 1, "--host") {
                    Ok(v) => v,
                    Err(e) => {
                        return Err(e);
                    },
                };
                host = Some(value);
            } else {
                return Err(invalid_input_with("不支持的启动参数：", argument));
            }
            i = i + 2;
        }
        let tool = match tool_id {
            None => {
                if path.is_some() || port.is_some() || pid.is_some() || host.is_some() {
                    return Err(invalid_input("使用 --path、--port、--pid 或 --host 时必须指定 --tool。"));
                }
                return Ok(None);
            },
            Some(t) => t,
        };
        let t = tool.as_str();
        if str_equal(t, "file-lock") {
            match path {
                Some(p) => Ok(Some(ToolInvocation { tool_id: tool, payload: ToolPayload::FilePath { path: p } })),
                None => Err(invalid_input("file-lock 需要 --path。")),
            }
        } else if str_equal(t, "port-inspector") {
            match port {
                Some(p) => Ok(Some(ToolInvocation { tool_id: tool, payload: ToolPayload::Port { port: p } })),
                None => Err(invalid_input("port-inspector 需要 --port。")),
            }
        } else if str_equal(t, "process-inspector") || str_equal(t, "process") {
            match pid {
                Some(p) => Ok(Some(ToolInvocation::process(p))),
                None => Err(invalid_input("process-inspector 需要 --pid。")),
            }
        } else if str_equal(t, "dns-lookup") || str_equal(t, "ping") || str_equal(t, "mtr") {
            match host {
                Some(h) => Ok(Some(ToolInvocation { tool_id: tool, payload: ToolPayload::Host { host: h } })),
                None => Err(invalid_input_with(t, " 需要 --host。")),
            }
        } else if str_equal(t, "tcp-probe") {
            match host {
                None => Err(invalid_input("tcp-probe 需要 --host。")),
                Some(h) => match port {
                    None => Err(invalid_input("tcp-probe 需要 --port。")),
                    Some(p) => Ok(Some(ToolInvocation { tool_id: tool, payload: ToolPayload::HostPort { host: h, port: p } })),
                },
            }
        } else {
            Err(invalid_input_with("未知工具 ID：", t))
        }
    }
}

/// The decimal text of `n` is all digits and reads back as `n`.
proof fn lemma_decimal_digits(n: nat)
    ensures
        decimal(n).len() > 0,
        all_digits(decimal(n)),
        digits_value(decimal(n)) == n,
        decimal(n)[0] != '+',
    decreases n,
{
    if n >= 10 {
        lemma_decimal_digits(n / 10);
        let d = decimal(n / 10).push(digit_char(n % 10));
        assert(d.drop_last() =~= decimal(n / 10));
        assert(d[0] == decimal(n / 10)[0]);
        assert forall|k: int| 0 <= k < d.len() implies crate::text::is_ascii_digit(#[trigger] d[k]) by {
            if k < d.len() - 1 {
                assert(d[k] == decimal(n / 10)[k]);
            }
        }
        assert(d.last() == digit_char(n % 10));
        assert(digit_char(n % 10) as u32 == '0' as u32 + n % 10);
        assert((n / 10) * 10 + n % 10 == n) by (nonlinear_arith);
        assert(decimal(n) == d);
        assert(digits_value(d) == digits_value(d.drop_last()) * 10 + ((d.last() as u32 - '0' as u32) as nat));
        assert(digits_value(d) == n);
    } else {
        assert(digit_char(n) as u32 == '0' as u32 + n);
        assert(decimal(n).drop_last() =~= Seq::<char>::empty());
        assert(digits_value(decimal(n)) == digits_value(Seq::<char>::empty()) * 10 + ((digit_char(n) as u32 - '0' as u32) as nat));
    }
}

/// The arguments of the context menu command, `--tool file-lock --path <file>`,
/// open the file lock tool on that file, whatever non-empty file name the
/// shell passes.
pub proof fn lemma_context_menu_arguments_open_file_lock(path: String)
    requires
        path@.len() > 0,
    ensures
        parse_spec(seq!["--tool"@, "file-lock"@, "--path"@, path@]) == Ok::<
            Option<(Seq<char>, (int, Seq<char>, int))>,
            Seq<char>,
        >(Some(("file-lock"@, payload_spec(ToolPayload::FilePath { path })))),
{
    reveal_strlit("--tool");
    reveal_strlit("--path");
    reveal_strlit("--port");
    reveal_strlit("--pid");
    reveal_strlit("file-lock");
    let args = seq!["--tool"@, "file-lock"@, "--path"@, path@];
    assert(args[0] == "--tool"@);
    assert(args[2] == "--path"@);
    assert("--path"@[2] != "--tool"@[2]);
    reveal_with_fuel(scan_args, 3);
}

/// The arguments `--tool process-inspector --pid <pid>`, with the PID written
/// in decimal, open the process inspector on that process.
pub proof fn lemma_process_arguments_open_process(pid: u32)
    requires
        pid > 0,
    ensures
        parse_spec(seq!["--tool"@, "process-inspector"@, "--pid"@, decimal(pid as nat)]) == Ok::<
            Option<(Seq<char>, (int, Seq<char>, int))>,
            Seq<char>,
        >(Some(("process-inspector"@, payload_spec(ToolPayload::Process { pid })))),
{
    reveal_strlit("--tool");
    reveal_strlit("--path");
    reveal_strlit("--port");
    reveal_strlit("--pid");
    reveal_strlit("process-inspector");
    reveal_strlit("file-lock");
    reveal_strlit("port-inspector");
    lemma_decimal_digits(pid as nat);
    let args = seq!["--tool"@, "process-inspector"@, "--pid"@, decimal(pid as nat)];
    assert(args[0] == "--tool"@);
    assert(args[2] == "--pid"@);
    assert("--pid"@.len() != "--tool"@.len());
    assert("--pid"@[3] != "--path"@[3]);
    assert("--pid"@[3] != "--port"@[3]);
    assert(parse_unsigned(decimal(pid as nat), 4294967295) == Some(pid as int));
    reveal_with_fuel(scan_args, 3);
}

/// The arguments `--tool <t> --host <h>` open any of the host tools (DNS
/// lookup, ping, MTR) on that host, whatever non-empty host is given.
pub proof fn lemma_host_arguments_open_host_tool(tool: Seq<char>, host: String)
    requires
        tool == "dns-lookup"@ || tool == "ping"@ || tool == "mtr"@,
        host@.len() > 0,
    ensures
        parse_spec(seq!["--tool"@, tool, "--host"@, host@]) == Ok::<
            Option<(Seq<char>, (int, Seq<char>, int))>,
            Seq<char>,
        >(Some((tool, payload_spec(ToolPayload::Host { host })))),
{
    reveal_strlit("--tool");
    reveal_strlit("--path");
    reveal_strlit("--port");
    reveal_strlit("--pid");
    reveal_strlit("--host");
    reveal_strlit("dns-lookup");
    reveal_strlit("ping");
    reveal_strlit("mtr");
    reveal_strlit("file-lock");
    reveal_strlit("port-inspector");
    reveal_strlit("process-inspector");
    reveal_strlit("process");
    let args = seq!["--tool"@, tool, "--host"@, host@];
    assert(args[0] == "--tool"@);
    assert(args[2] == "--host"@);
    assert("--host"@[2] != "--tool"@[2]);
    assert("--host"@[2] != "--path"@[2]);
    assert("--host"@[2] != "--port"@[2]);
    assert("--host"@.len() != "--pid"@.len());
    assert(tool.len() > 0);
    assert(tool != "file-lock"@ && tool != "port-inspector"@ && tool != "process-inspector"@ && tool
        != "process"@) by {
        if tool == "ping"@ {
            assert(tool.len() != "file-lock"@.len());
            assert(tool.len() != "port-inspector"@.len());
            assert(tool.len() != "process-inspector"@.len());
            assert(tool.len() != "process"@.len());
        } else if tool == "mtr"@ {
            assert(tool.len() != "file-lock"@.len());
            assert(tool.len() != "port-inspector"@.len());
            assert(tool.len() != "process-inspector"@.len());
            assert(tool.len() != "process"@.len());
        } else {
            assert(tool.len() != "file-lock"@.len());
            assert(tool.len() != "port-inspector"@.len());
            assert(tool.len() != "process-inspector"@.len());
            assert(tool.len() != "process"@.len());
        }
    }
    reveal_with_fuel(scan_args, 3);
}

/// The arguments `--tool port-inspector --port <n>`, with a port from 1 to
/// 65535 written in decimal, open the port inspector on that port.
pub proof fn lemma_port_arguments_open_port_inspector(port: u16)
    requires
        port > 0,
    ensures
        parse_spec(seq!["--tool"@, "port-inspector"@, "--port"@, decimal(port as nat)]) == Ok::<
            Option<(Seq<char>, (int, Seq<char>, int))>,
            Seq<char>,
        >(Some(("port-inspector"@, payload_spec(ToolPayload::Port { port })))),
{
    reveal_strlit("--tool");
    reveal_strlit("--path");
    reveal_strlit("--port");
    reveal_strlit("--pid");
    reveal_strlit("port-inspector");
    reveal_strlit("file-lock");
    lemma_decimal_digits(port as nat);
    let args = seq!["--tool"@, "port-inspector"@, "--port"@, decimal(port as nat)];
    assert(args[0] == "--tool"@);
    assert(args[2] == "--port"@);
    assert("--port"@[2] != "--tool"@[2]);
    assert("--port"@[3] != "--path"@[3]);
    assert(parse_unsigned(decimal(port as nat), 65535) == Some(port as int));
    reveal_with_fuel(scan_args, 3);
}

/// The arguments `--tool tcp-probe --host <h> --port <n>` open the TCP probe
/// on that host and port, whatever non-empty host is given.
pub proof fn lemma_probe_arguments_open_tcp_probe(host: String, port: u16)
    requires
        host@.len() > 0,
        port > 0,
    ensures
        parse_spec(seq!["--tool"@, "tcp-probe"@, "--host"@, host@, "--port"@, decimal(port as nat)]) == Ok::<
            Option<(Seq<char>, (int, Seq<char>, int))>,
            Seq<char>,
        >(Some(("tcp-probe"@, payload_spec(ToolPayload::HostPort { host, port })))),
{
    reveal_strlit("--tool");
    reveal_strlit("--path");
    reveal_strlit("--port");
    reveal_strlit("--pid");
    reveal_strlit("--host");
    reveal_strlit("tcp-probe");
    reveal_strlit("file-lock");
    reveal_strlit("port-inspector");
    reveal_strlit("process-inspector");
    reveal_strlit("process");
    reveal_strlit("dns-lookup");
    reveal_strlit("ping");
    reveal_strlit("mtr");
    lemma_decimal_digits(port as nat);
    let args = seq!["--tool"@, "tcp-probe"@, "--host"@, host@, "--port"@, decimal(port as nat)];
    assert(args[0] == "--tool"@);
    assert(args[2] == "--host"@);
    assert(args[4] == "--port"@);
    assert("--host"@[2] != "--tool"@[2]);
    assert("--host"@[2] != "--path"@[2]);
    assert("--host"@[2] != "--port"@[2]);
    assert("--host"@.len() != "--pid"@.len());
    assert("--port"@[2] != "--tool"@[2]);
    assert("--port"@[3] != "--path"@[3]);
    assert(parse_unsigned(decimal(port as nat), 65535) == Some(port as int));
    assert("tcp-probe"@[0] != "file-lock"@[0]);
    assert("tcp-probe"@.len() != "port-inspector"@.len());
    assert("tcp-probe"@.len() != "process-inspector"@.len());
    assert("tcp-probe"@.len() != "process"@.len());
    assert("tcp-probe"@.len() != "dns-lookup"@.len());
    assert("tcp-probe"@.len() != "ping"@.len());
    assert("tcp-probe"@.len() != "mtr"@.len());
    reveal_with_fuel(scan_args, 4);
}

/// Starting without arguments asks for no tool.
pub proof fn lemma_no_arguments_no_invocation()
    ensures
        parse_spec(Seq::<Seq<char>>::empty()) == Ok::<Option<(Seq<char>, (int, Seq<char>, int))>, Seq<char>>(
            None,
        ),
{
}

} // verus!

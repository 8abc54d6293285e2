//! Domain model of the persistent communication tools (TCP, UDP, serial):
//! session configurations and their validation, records, payload codecs and
//! the doubly bounded per-tool log. Nothing here opens a socket or a port.
use std::collections::VecDeque;

use vstd::prelude::*;

use vstd::utf8::{decode_utf8, encode_utf8, valid_utf8};

use crate::text::{
    char_is_ws, chars_of, decimal, hex_byte_upper, hex_upper, hex_value, is_ascii_hex, is_ws, push_chars, hex_lower_digits, hex_upper_char, is_blank, outcome_is, owned,
    push_char, push_decimal, push_hex_lower, push_str, trim, trimmed,
};
use crate::net_addr::{ipv4_octets, parse_ipv4, split_char};

verus! {

/// Capacity of the command and event queues of one session.
pub const COMMUNICATION_QUEUE_CAPACITY: usize = 64;

/// Largest number of records carried by one event batch.
pub const MAX_RECORD_BATCH: usize = 128;

/// Longest time a record batch waits before it is sent, in milliseconds.
pub const RECORD_BATCH_INTERVAL_MS: u64 = 50;

/// Largest number of records one tool keeps.
pub const MAX_LOG_RECORDS: usize = 10000;

/// Largest number of raw payload bytes one tool keeps.
pub const MAX_LOG_PAYLOAD_BYTES: usize = 16777216;

/// Largest number of bytes queued for writing on one TCP connection.
pub const MAX_TCP_PENDING_BYTES: usize = 1048576;

/// Largest payload of one UDP datagram.
pub const MAX_UDP_PAYLOAD_BYTES: usize = 65507;

/// The persistent communication tool; also the key of a session's lifetime.
#[derive(Clone, Copy, Debug, PartialEq, Eq, Structural, Hash)]
pub enum CommunicationKind {
    Tcp,
    Udp,
    Serial,
}

impl CommunicationKind {
    pub open spec fn spec_tool_id(self) -> Seq<char> {
        match self {
            CommunicationKind::Tcp => "tcp-debug"@,
            CommunicationKind::Udp => "udp-debug"@,
            CommunicationKind::Serial => "serial-debug"@,
        }
    }

    /// The tool identifier of this kind of session.
    pub fn tool_id(self) -> (id: &'static str)
        ensures
            id@ == self.spec_tool_id(),
    {
        match self {
            CommunicationKind::Tcp => "tcp-debug",
            CommunicationKind::Udp => "udp-debug",
            CommunicationKind::Serial => "serial-debug",
        }
    }
}

/// The address family a network session is restricted to.
#[derive(Clone, Copy, Debug, Default, PartialEq, Eq, Structural)]
pub enum CommunicationIpFamily {
    #[default]
    V4,
    V6,
}

impl CommunicationIpFamily {
    pub fn label(self) -> (l: &'static str)
        ensures
            l@ == match self {
                CommunicationIpFamily::V4 => "IPv4"@,
                CommunicationIpFamily::V6 => "IPv6"@,
            },
    {
        match self {
            CommunicationIpFamily::V4 => "IPv4",
            CommunicationIpFamily::V6 => "IPv6",
        }
    }
}

/// Role of a TCP debugging session.
#[derive(Clone, Copy, Debug, Default, PartialEq, Eq, Structural)]
pub enum TcpDebugMode {
    #[default]
    Client,
    Server,
}

impl TcpDebugMode {
    pub fn label(self) -> (l: &'static str)
        ensures
            l@ == match self {
                TcpDebugMode::Client => "客户端"@,
                TcpDebugMode::Server => "服务端"@,
            },
    {
        match self {
            TcpDebugMode::Client => "客户端",
            TcpDebugMode::Server => "服务端",
        }
    }
}

/// Start configuration of a TCP session; the address is the remote end for
/// a client and the local listening address for a server.
#[derive(Clone, Debug, PartialEq, Eq)]
pub struct TcpDebugConfig {
    pub mode: TcpDebugMode,
    pub family: CommunicationIpFamily,
    pub address: String,
    pub port: u16,
    pub connect_timeout_ms: u32,
}

/// The first problem of a TCP configuration, if any.
pub open spec fn tcp_config_problem(c: TcpDebugConfig) -> Option<Seq<char>> {
    if trim(c.address@).len() == 0 {
        Some("地址不能为空。"@)
    } else if c.port == 0 {
        Some("端口必须在 1–65535 之间。"@)
    } else if !(100 <= c.connect_timeout_ms <= 30000) {
        Some("TCP 连接超时必须在 100–30000 ms 之间。"@)
    } else {
        None
    }
}

impl TcpDebugConfig {
    /// Checks the configuration and reports its first problem.
    pub fn validate(&self) -> (r: Result<(), String>)
        ensures
            outcome_is(r, tcp_config_problem(*self)),
    {
        if is_blank(self.address.as_str()) {
            return Err(owned("地址不能为空。"));
        }
        if self.port == 0 {
            return Err(owned("端口必须在 1–65535 之间。"));
        }
        if !(100 <= self.connect_timeout_ms && self.connect_timeout_ms <= 30000) {
            return Err(owned("TCP 连接超时必须在 100–30000 ms 之间。"));
        }
        Ok(())
    }
}

/// IPv4 multicast configuration; IPv6 multicast is outside this version.
#[derive(Clone, Debug, PartialEq, Eq)]
pub struct UdpMulticastConfig {
    pub group: String,
    pub interface: String,
    pub ttl: u32,
    pub loopback: bool,
}

/// Start configuration of a UDP session.
#[derive(Clone, Debug, PartialEq, Eq)]
pub struct UdpDebugConfig {
    pub family: CommunicationIpFamily,
    pub local_address: String,
    pub local_port: u16,
    pub remote_address: String,
    pub remote_port: u16,
    pub broadcast: bool,
    pub multicast: Option<UdpMulticastConfig>,
}

/// The first problem of a multicast section, if any.
pub open spec fn multicast_problem(m: UdpMulticastConfig) -> Option<Seq<char>> {
    match ipv4_octets(m.group@) {
        None => Some("组播地址必须是有效 IPv4 地址。"@),
        Some(group) => if !(224 <= group[0] <= 239) {
            Some("组播地址必须位于 IPv4 组播地址范围。"@)
        } else if ipv4_octets(m.interface@) is None {
            Some("组播接口必须是有效的本地 IPv4 地址。"@)
        } else if !(1 <= m.ttl <= 255) {
            Some("组播 TTL 必须在 1–255 之间。"@)
        } else {
            None
        },
    }
}

/// The first problem of a UDP configuration, if any.
pub open spec fn udp_config_problem(c: UdpDebugConfig) -> Option<Seq<char>> {
    if trim(c.local_address@).len() == 0 {
        Some("本地绑定地址不能为空。"@)
    } else if c.broadcast && c.family == CommunicationIpFamily::V6 {
        Some("当前版本不支持 IPv6 广播。"@)
    } else if (trim(c.remote_address@).len() == 0) != (c.remote_port == 0) {
        Some("默认远端地址和端口必须同时填写或同时留空。"@)
    } else {
        match c.multicast {
            None => None,
            Some(m) => if c.family != CommunicationIpFamily::V4 {
                Some("当前版本仅支持 IPv4 组播。"@)
            } else {
                multicast_problem(m)
            },
        }
    }
}

impl UdpDebugConfig {
    /// Checks the configuration and reports its first problem.
    pub fn validate(&self) -> (r: Result<(), String>)
        ensures
            outcome_is(r, udp_config_problem(*self)),
    {
        if is_blank(self.local_address.as_str()) {
            return Err(owned("本地绑定地址不能为空。"));
        }
        if self.broadcast && self.family == CommunicationIpFamily::V6 {
            return Err(owned("当前版本不支持 IPv6 广播。"));
        }
        if is_blank(self.remote_address.as_str()) != (self.remote_port == 0) {
            return Err(owned("默认远端地址和端口必须同时填写或同时留空。"));
        }
        match &self.multicast {
            None => Ok(()),
            Some(multicast) => {
                if self.family != CommunicationIpFamily::V4 {
                    return Err(owned("当前版本仅支持 IPv4 组播。"));
                }
                let group = match parse_ipv4(multicast.group.as_str()) {
                    None => {
                        return Err(owned("组播地址必须是有效 IPv4 地址。"));
                    },
                    Some(octets) => octets,
                };
                if !(224 <= group[0] && group[0] <= 239) {
                    return Err(owned("组播地址必须位于 IPv4 组播地址范围。"));
                }
                if parse_ipv4(multicast.interface.as_str()).is_none() {
                    return Err(owned("组播接口必须是有效的本地 IPv4 地址。"));
                }
                if !(1 <= multicast.ttl && multicast.ttl <= 255) {
                    return Err(owned("组播 TTL 必须在 1–255 之间。"));
                }
                Ok(())
            },
        }
    }
}

/// Data bits of a serial line.
#[derive(Clone, Copy, Debug, Default, PartialEq, Eq, Structural)]
pub enum SerialDataBits {
    Five,
    Six,
    Seven,
    #[default]
    Eight,
}

impl SerialDataBits {
    pub open spec fn spec_label(self) -> Seq<char> {
        match self {
            SerialDataBits::Five => "5"@,
            SerialDataBits::Six => "6"@,
            SerialDataBits::Seven => "7"@,
            SerialDataBits::Eight => "8"@,
        }
    }

    pub fn label(self) -> (l: &'static str)
        ensures
            l@ == self.spec_label(),
    {
        match self {
            SerialDataBits::Five => "5",
            SerialDataBits::Six => "6",
            SerialDataBits::Seven => "7",
            SerialDataBits::Eight => "8",
        }
    }
}

/// Parity of a serial line.
#[derive(Clone, Copy, Debug, Default, PartialEq, Eq, Structural)]
pub enum SerialParity {
    #[default]
    NoParity,
    Odd,
    Even,
}

impl SerialParity {
    pub fn label(self) -> (l: &'static str)
        ensures
            l@ == match self {
                SerialParity::NoParity => "无"@,
                SerialParity::Odd => "奇校验"@,
                SerialParity::Even => "偶校验"@,
            },
    {
        match self {
            SerialParity::NoParity => "无",
            SerialParity::Odd => "奇校验",
            SerialParity::Even => "偶校验",
        }
    }

    /// The one-letter code used in `8N1`-style summaries.
    pub open spec fn spec_letter(self) -> Seq<char> {
        match self {
            SerialParity::NoParity => "N"@,
            SerialParity::Odd => "O"@,
            SerialParity::Even => "E"@,
        }
    }
}

/// Stop bits of a serial line.
#[derive(Clone, Copy, Debug, Default, PartialEq, Eq, Structural)]
pub enum SerialStopBits {
    #[default]
    One,
    Two,
}

impl SerialStopBits {
    pub open spec fn spec_label(self) -> Seq<char> {
        match self {
            SerialStopBits::One => "1"@,
            SerialStopBits::Two => "2"@,
        }
    }

    pub fn label(self) -> (l: &'static str)
        ensures
            l@ == self.spec_label(),
    {
        match self {
            SerialStopBits::One => "1",
            SerialStopBits::Two => "2",
        }
    }
}

/// Flow control of a serial line.
#[derive(Clone, Copy, Debug, Default, PartialEq, Eq, Structural)]
pub enum SerialFlowControl {
    #[default]
    NoFlowControl,
    Software,
    Hardware,
}

impl SerialFlowControl {
    pub fn label(self) -> (l: &'static str)
        ensures
            l@ == match self {
                SerialFlowControl::NoFlowControl => "无"@,
                SerialFlowControl::Software => "软件"@,
                SerialFlowControl::Hardware => "硬件"@,
            },
    {
        match self {
            SerialFlowControl::NoFlowControl => "无",
            SerialFlowControl::Software => "软件",
            SerialFlowControl::Hardware => "硬件",
        }
    }
}

/// Start configuration of a serial session.
#[derive(Clone, Debug, PartialEq, Eq)]
pub struct SerialDebugConfig {
    pub port_name: String,
    pub baud_rate: u32,
    pub data_bits: SerialDataBits,
    pub parity: SerialParity,
    pub stop_bits: SerialStopBits,
    pub flow_control: SerialFlowControl,
    pub read_timeout_ms: u64,
}

/// The first problem of a serial configuration, if any.
pub open spec fn serial_config_problem(c: SerialDebugConfig) -> Option<Seq<char>> {
    if trim(c.port_name@).len() == 0 {
        Some("请选择串口。"@)
    } else if c.baud_rate == 0 {
        Some("波特率必须大于 0。"@)
    } else if !(10 <= c.read_timeout_ms <= 1000) {
        Some("串口读取超时必须在 10–1000 ms 之间。"@)
    } else {
        None
    }
}

impl SerialDebugConfig {
    /// Checks the configuration and reports its first problem.
    pub fn validate(&self) -> (r: Result<(), String>)
        ensures
            outcome_is(r, serial_config_problem(*self)),
    {
        if is_blank(self.port_name.as_str()) {
            return Err(owned("请选择串口。"));
        }
        if self.baud_rate == 0 {
            return Err(owned("波特率必须大于 0。"));
        }
        if !(10 <= self.read_timeout_ms && self.read_timeout_ms <= 1000) {
            return Err(owned("串口读取超时必须在 10–1000 ms 之间。"));
        }
        Ok(())
    }
}

/// Start configuration of any of the three kinds of session.
#[derive(Clone, Debug, PartialEq, Eq)]
pub enum CommunicationConfig {
    Tcp(TcpDebugConfig),
    Udp(UdpDebugConfig),
    Serial(SerialDebugConfig),
}

/// The first problem of a session configuration, if any.
pub open spec fn config_problem(c: CommunicationConfig) -> Option<Seq<char>> {
    match c {
        CommunicationConfig::Tcp(t) => tcp_config_problem(t),
        CommunicationConfig::Udp(u) => udp_config_problem(u),
        CommunicationConfig::Serial(s) => serial_config_problem(s),
    }
}

/// `host:port` with the host trimmed.
pub open spec fn host_port(host: Seq<char>, port: u16) -> Seq<char> {
    trim(host) + ":"@ + decimal(port as nat)
}

/// The in-memory summary of a session shown on the home page.
pub open spec fn session_summary_of(c: CommunicationConfig) -> Seq<char> {
    match c {
        CommunicationConfig::Tcp(t) => match t.mode {
            TcpDebugMode::Client => host_port(t.address@, t.port),
            TcpDebugMode::Server => "监听 "@ + host_port(t.address@, t.port),
        },
        CommunicationConfig::Udp(u) => {
            let local = host_port(u.local_address@, u.local_port);
            match u.multicast {
                Some(m) => local + " · 组播 "@ + host_port(m.group@, u.remote_port),
                None => if trim(u.remote_address@).len() == 0 {
                    local
                } else {
                    local + " → "@ + host_port(u.remote_address@, u.remote_port)
                },
            }
        },
        CommunicationConfig::Serial(s) => trim(s.port_name@) + "，"@ + decimal(s.baud_rate as nat)
            + "，"@ + s.data_bits.spec_label() + s.parity.spec_letter() + s.stop_bits.spec_label(),
    }
}

/// Appends `host:port`, trimming the host.
fn push_host_port(out: &mut String, host: &str, port: u16)
    ensures
        final(out)@ == old(out)@ + host_port(host@, port),
{
    let h = trimmed(host);
    push_str(out, h.as_str());
    push_str(out, ":");
    push_decimal(out, port as u64);
    assert(out@ =~= old(out)@ + host_port(host@, port));
}

impl CommunicationConfig {
    pub open spec fn spec_kind(self) -> CommunicationKind {
        match self {
            CommunicationConfig::Tcp(_) => CommunicationKind::Tcp,
            CommunicationConfig::Udp(_) => CommunicationKind::Udp,
            CommunicationConfig::Serial(_) => CommunicationKind::Serial,
        }
    }

    /// The kind of session this configuration starts.
    pub fn kind(&self) -> (k: CommunicationKind)
        ensures
            k == self.spec_kind(),
    {
        match self {
            CommunicationConfig::Tcp(_) => CommunicationKind::Tcp,
            CommunicationConfig::Udp(_) => CommunicationKind::Udp,
            CommunicationConfig::Serial(_) => CommunicationKind::Serial,
        }
    }

    /// Checks the configuration of whichever kind it is.
    pub fn validate(&self) -> (r: Result<(), String>)
        ensures
            outcome_is(r, config_problem(*self)),
    {
        match self {
            CommunicationConfig::Tcp(config) => config.validate(),
            CommunicationConfig::Udp(config) => config.validate(),
            CommunicationConfig::Serial(config) => config.validate(),
        }
    }

    /// The summary shown on the home page, kept in memory only.
    pub fn session_summary(&self) -> (s: String)
        ensures
            s@ == session_summary_of(*self),
    {
        let mut out = String::new();
        match self {
            CommunicationConfig::Tcp(config) => {
                if config.mode == TcpDebugMode::Server {
                    push_str(&mut out, "监听 ");
                }
                push_host_port(&mut out, config.address.as_str(), config.port);
            },
            CommunicationConfig::Udp(config) => {
                push_host_port(&mut out, config.local_address.as_str(), config.local_port);
                match &config.multicast {
                    Some(multicast) => {
                        push_str(&mut out, " · 组播 ");
                        push_host_port(&mut out, multicast.group.as_str(), config.remote_port);
                    },
                    None => {
                        if !is_blank(config.remote_address.as_str()) {
                            push_str(&mut out, " → ");
                            push_host_port(
                                &mut out,
                                config.remote_address.as_str(),
                                config.remote_port,
                            );
                        }
                    },
                }
            },
            CommunicationConfig::Serial(config) => {
                let name = trimmed(config.port_name.as_str());
                push_str(&mut out, name.as_str());
                push_str(&mut out, "，");
                push_decimal(&mut out, config.baud_rate as u64);
                push_str(&mut out, "，");
                push_str(&mut out, config.data_bits.label());
                let letter = match config.parity {
                    SerialParity::NoParity => "N",
                    SerialParity::Odd => "O",
                    SerialParity::Even => "E",
                };
                push_str(&mut out, letter);
                push_str(&mut out, config.stop_bits.label());
            },
        }
        assert(out@ =~= session_summary_of(*self));
        out
    }
}


/// Target of a send command; each protocol reads only the variants that
/// concern it.
#[derive(Clone, Debug, PartialEq, Eq)]
pub enum CommunicationSendTarget {
    Default,
    TcpClient(u64),
    AllTcpClients,
    /// A UDP source address, in its `ip:port` text form.
    UdpSource(String),
}

/// Command sent by the user interface to an active session.
#[derive(Clone, Debug, PartialEq, Eq)]
pub enum CommunicationCommand {
    Send { payload: Vec<u8>, target: CommunicationSendTarget, format: PayloadFormat },
    SetRts(bool),
    SetDtr(bool),
    Stop,
}

/// Direction of a communication record.
#[derive(Clone, Copy, Debug, PartialEq, Eq, Structural)]
pub enum CommunicationDirection {
    Incoming,
    Outgoing,
    Status,
}

impl CommunicationDirection {
    pub open spec fn spec_label(self) -> Seq<char> {
        match self {
            CommunicationDirection::Incoming => "RX"@,
            CommunicationDirection::Outgoing => "TX"@,
            CommunicationDirection::Status => "STATE"@,
        }
    }

    pub fn label(self) -> (l: &'static str)
        ensures
            l@ == self.spec_label(),
    {
        match self {
            CommunicationDirection::Incoming => "RX",
            CommunicationDirection::Outgoing => "TX",
            CommunicationDirection::Status => "STATE",
        }
    }
}

/// Display encoding of a payload.
#[derive(Clone, Copy, Debug, Default, PartialEq, Eq, Structural)]
pub enum PayloadFormat {
    #[default]
    Text,
    Hex,
}

impl PayloadFormat {
    pub fn label(self) -> (l: &'static str)
        ensures
            l@ == match self {
                PayloadFormat::Text => "文本"@,
                PayloadFormat::Hex => "HEX"@,
            },
    {
        match self {
            PayloadFormat::Text => "文本",
            PayloadFormat::Hex => "HEX",
        }
    }
}

/// One communication record; the raw payload is always kept, text or hex is
/// produced only when it is displayed.
#[derive(Clone, Debug, PartialEq, Eq)]
pub struct CommunicationRecord {
    pub timestamp: String,
    pub direction: CommunicationDirection,
    pub endpoint: String,
    pub payload: Vec<u8>,
    pub payload_format: Option<PayloadFormat>,
    pub note: Option<String>,
}

/// How one character of a log field is written.
pub open spec fn log_escape_char(c: char) -> Seq<char> {
    if c == '\\' {
        "\\\\"@
    } else if c == '\t' {
        "\\t"@
    } else if c == '\r' {
        "\\r"@
    } else if c == '\n' {
        "\\n"@
    } else {
        seq![c]
    }
}

/// A log field with backslash, tab, carriage return and line feed escaped.
pub open spec fn log_escape(s: Seq<char>) -> Seq<char>
    decreases s.len(),
{
    if s.len() == 0 {
        Seq::<char>::empty()
    } else {
        log_escape(s.drop_last()) + log_escape_char(s.last())
    }
}

/// `char::is_control`: the general category Cc.
pub open spec fn is_control(c: char) -> bool {
    (c as u32) <= 0x1F || (0x7F <= (c as u32) && (c as u32) <= 0x9F)
}

/// How one character of received text is displayed.
pub open spec fn text_escape_char(c: char) -> Seq<char> {
    if c == '\r' {
        "\\r"@
    } else if c == '\n' {
        "\\n"@
    } else if c == '\t' {
        "\\t"@
    } else if c == '\0' {
        "\\0"@
    } else if is_control(c) {
        "\\u{"@ + hex_lower_digits(c as nat) + "}"@
    } else {
        seq![c]
    }
}

/// Received text with control characters escaped.
pub open spec fn text_escape(s: Seq<char>) -> Seq<char>
    decreases s.len(),
{
    if s.len() == 0 {
        Seq::<char>::empty()
    } else {
        text_escape(s.drop_last()) + text_escape_char(s.last())
    }
}

/// Bytes as upper-case hexadecimal pairs separated by single spaces.
pub open spec fn hex_render(b: Seq<u8>) -> Seq<char>
    decreases b.len(),
{
    if b.len() == 0 {
        Seq::<char>::empty()
    } else if b.len() == 1 {
        hex_byte_upper(b[0])
    } else {
        hex_render(b.drop_last()) + " "@ + hex_byte_upper(b.last())
    }
}

/// What `String::from_utf8_lossy` returns for `bytes`: the decoded text with
/// each invalid sequence replaced by U+FFFD.
pub uninterp spec fn utf8_lossy(bytes: Seq<u8>) -> Seq<char>;

/// The notice appended to text that held invalid UTF-8.
pub open spec fn invalid_utf8_notice() -> Seq<char> {
    " [含无效 UTF-8，已替换显示]"@
}

/// A payload as it is displayed in the given format.
pub open spec fn render_spec(payload: Seq<u8>, format: PayloadFormat) -> Seq<char> {
    match format {
        PayloadFormat::Hex => hex_render(payload),
        PayloadFormat::Text => if valid_utf8(payload) {
            text_escape(decode_utf8(payload))
        } else {
            text_escape(utf8_lossy(payload)) + invalid_utf8_notice()
        },
    }
}

/// `String::from_utf8_lossy`, with whether any replacement took place.
///
/// Claimed of the std function: the text is the named lossy decoding of the
/// bytes; when the bytes are valid UTF-8 it is their plain decoding and the
/// result is borrowed, otherwise it is owned.
#[verifier::external_body]
fn decode_utf8_lossy(bytes: &[u8]) -> (r: (String, bool))
    ensures
        r.0@ == utf8_lossy(bytes@),
        r.1 == !valid_utf8(bytes@),
        valid_utf8(bytes@) ==> r.0@ == decode_utf8(bytes@),
{
    let text = String::from_utf8_lossy(bytes);
    let replaced = matches!(text, std::borrow::Cow::Owned(_));
    (text.into_owned(), replaced)
}

/// Escapes a log field: backslash, tab, carriage return and line feed.
pub fn escape_log_field(value: &str) -> (r: String)
    ensures
        r@ == log_escape(value@),
{
    let chars = chars_of(value);
    let mut out = String::new();
    let mut i: usize = 0;
    while i < chars.len()
        invariant
            i <= chars@.len(),
            out@ == log_escape(chars@.take(i as int)),
        decreases chars.len() - i,
    {
        let c = chars[i];
        if c == '\\' {
            push_str(&mut out, "\\\\");
        } else if c == '\t' {
            push_str(&mut out, "\\t");
        } else if c == '\r' {
            push_str(&mut out, "\\r");
        } else if c == '\n' {
            push_str(&mut out, "\\n");
        } else {
            push_char(&mut out, c);
        }
        proof {
            assert(chars@.take(i + 1).drop_last() =~= chars@.take(i as int));
        }
        i = i + 1;
        assert(out@ =~= log_escape(chars@.take(i as int)));
    }
    assert(chars@.take(i as int) =~= chars@);
    out
}

/// Appends the display form of `c` as received text.
fn push_text_escaped(out: &mut String, c: char)
    ensures
        final(out)@ == old(out)@ + text_escape_char(c),
{
    if c == '\r' {
        push_str(out, "\\r");
    } else if c == '\n' {
        push_str(out, "\\n");
    } else if c == '\t' {
        push_str(out, "\\t");
    } else if c == '\0' {
        push_str(out, "\\0");
    } else if (c as u32) <= 0x1F || (0x7F <= (c as u32) && (c as u32) <= 0x9F) {
        push_str(out, "\\u{");
        push_hex_lower(out, c as u32);
        push_str(out, "}");
    } else {
        push_char(out, c);
    }
    assert(out@ =~= old(out)@ + text_escape_char(c));
}

/// Appends two upper-case hexadecimal digits for `b`.
fn push_hex_byte(out: &mut String, b: u8)
    ensures
        final(out)@ == old(out)@ + hex_byte_upper(b),
{
    push_char(out, hex_upper_char(b / 16));
    push_char(out, hex_upper_char(b % 16));
    assert(out@ =~= old(out)@ + hex_byte_upper(b));
}

/// Renders a payload in the selected format: hexadecimal pairs, or text that
/// keeps printable Unicode, escapes control characters and marks invalid
/// UTF-8.
pub fn render_payload(payload: &[u8], format: PayloadFormat) -> (r: String)
    ensures
        r@ == render_spec(payload@, format),
{
    match format {
        PayloadFormat::Hex => {
            let mut out = String::new();
            let mut i: usize = 0;
            while i < payload.len()
                invariant
                    i <= payload@.len(),
                    out@ == hex_render(payload@.take(i as int)),
                decreases payload.len() - i,
            {
                if i > 0 {
                    push_str(&mut out, " ");
                }
                push_hex_byte(&mut out, payload[i]);
                proof {
                    assert(payload@.take(i + 1).drop_last() =~= payload@.take(i as int));
                }
                i = i + 1;
                assert(out@ =~= hex_render(payload@.take(i as int)));
            }
            assert(payload@.take(i as int) =~= payload@);
            out
        },
        PayloadFormat::Text => {
            let (text, replaced) = decode_utf8_lossy(payload);
            let chars = chars_of(text.as_str());
            let mut out = String::new();
            let mut i: usize = 0;
            while i < chars.len()
                invariant
                    i <= chars@.len(),
                    out@ == text_escape(chars@.take(i as int)),
                decreases chars.len() - i,
            {
                push_text_escaped(&mut out, chars[i]);
                proof {
                    assert(chars@.take(i + 1).drop_last() =~= chars@.take(i as int));
                }
                i = i + 1;
            }
            assert(chars@.take(i as int) =~= chars@);
            if replaced {
                push_str(&mut out, " [含无效 UTF-8，已替换显示]");
            }
            out
        },
    }
}

impl CommunicationRecord {
    /// Number of raw payload bytes.
    pub fn payload_bytes(&self) -> (n: usize)
        ensures
            n == self.payload@.len(),
    {
        self.payload.len()
    }

    pub open spec fn spec_display_format(self, receive_format: PayloadFormat) -> PayloadFormat {
        if self.direction == CommunicationDirection::Outgoing {
            match self.payload_format {
                Some(f) => f,
                None => receive_format,
            }
        } else {
            receive_format
        }
    }

    /// Display format of this record: an outgoing record keeps the format it
    /// was sent in, any other follows the receive format chosen in the view.
    pub fn display_format(&self, receive_format: PayloadFormat) -> (f: PayloadFormat)
        ensures
            f == self.spec_display_format(receive_format),
    {
        if self.direction == CommunicationDirection::Outgoing {
            match self.payload_format {
                Some(f) => f,
                None => receive_format,
            }
        } else {
            receive_format
        }
    }

    pub open spec fn spec_display_content(self, receive_format: PayloadFormat) -> Seq<char> {
        match self.note {
            Some(note) => log_escape(note@),
            None => render_spec(self.payload@, self.spec_display_format(receive_format)),
        }
    }

    /// The full displayed content, shared by the view, search, copy and
    /// export: the escaped note when there is one, otherwise the payload
    /// rendered in the record's display format.
    pub fn display_content(&self, receive_format: PayloadFormat) -> (s: String)
        ensures
            s@ == self.spec_display_content(receive_format),
    {
        match &self.note {
            Some(note) => escape_log_field(note.as_str()),
            None => render_payload(self.payload.as_slice(), self.display_format(receive_format)),
        }
    }
}

/// A client of a TCP server session, as announced to the interface.
#[derive(Clone, Debug, PartialEq, Eq)]
pub struct CommunicationPeer {
    pub id: u64,
    pub endpoint: String,
    pub connected_at: String,
    pub received_bytes: u64,
    pub sent_bytes: u64,
}

/// Connection state of a session.
#[derive(Clone, Copy, Debug, PartialEq, Eq, Structural)]
pub enum CommunicationSessionState {
    Starting,
    Listening,
    Connected,
    Stopped,
    Failed,
}

impl CommunicationSessionState {
    pub open spec fn spec_label(self) -> Seq<char> {
        match self {
            CommunicationSessionState::Starting => "启动中"@,
            CommunicationSessionState::Listening => "监听中"@,
            CommunicationSessionState::Connected => "已连接"@,
            CommunicationSessionState::Stopped => "未连接"@,
            CommunicationSessionState::Failed => "失败"@,
        }
    }

    /// The state name shared by the home page and the tool pages.
    pub fn label(self) -> (l: &'static str)
        ensures
            l@ == self.spec_label(),
    {
        match self {
            CommunicationSessionState::Starting => "启动中",
            CommunicationSessionState::Listening => "监听中",
            CommunicationSessionState::Connected => "已连接",
            CommunicationSessionState::Stopped => "未连接",
            CommunicationSessionState::Failed => "失败",
        }
    }
}

/// Event sent by a session back to the interface.
#[derive(Clone, Debug, PartialEq, Eq)]
pub enum CommunicationEvent {
    Status { state: CommunicationSessionState, detail: String },
    Records(Vec<CommunicationRecord>),
    Peers(Vec<CommunicationPeer>),
    QueueDropped(u64),
}

/// An event with the generation of the session that produced it; events of
/// an older generation are dropped before they are routed.
#[derive(Clone, Debug, PartialEq, Eq)]
pub struct CommunicationEventEnvelope {
    pub kind: CommunicationKind,
    pub generation: u64,
    pub event: CommunicationEvent,
}

/// An entry of the serial port list; absent USB fields were not reported by
/// the system.
#[derive(Clone, Debug, PartialEq, Eq)]
pub struct SerialPortDescriptor {
    pub port_name: String,
    pub port_type: String,
    pub manufacturer: Option<String>,
    pub product: Option<String>,
    pub serial_number: Option<String>,
    pub vid: Option<u16>,
    pub pid: Option<u16>,
}

impl SerialPortDescriptor {
    /// The port name, followed by ` · product` when the product is known.
    pub fn display_name(&self) -> (s: String)
        ensures
            s@ == match self.product {
                None => self.port_name@,
                Some(p) => self.port_name@ + " · "@ + p@,
            },
    {
        match &self.product {
            None => self.port_name.clone(),
            Some(product) => {
                let mut out = self.port_name.clone();
                push_str(&mut out, " · ");
                push_str(&mut out, product.as_str());
                out
            },
        }
    }
}


/// Length of the run of non-whitespace characters that starts `s`.
pub open spec fn token_len(s: Seq<char>) -> nat
    decreases s.len(),
{
    if s.len() == 0 || is_ws(s[0]) {
        0
    } else {
        1 + token_len(s.drop_first())
    }
}

/// A token is one hexadecimal byte: exactly two ASCII hexadecimal digits.
pub open spec fn is_hex_byte_token(t: Seq<char>) -> bool {
    t.len() == 2 && is_ascii_hex(t[0]) && is_ascii_hex(t[1])
}

/// The byte a two-digit hexadecimal token denotes.
pub open spec fn hex_token_value(t: Seq<char>) -> u8 {
    (hex_value(t[0]) * 16 + hex_value(t[1])) as u8
}

/// The message for a token that is not one hexadecimal byte.
pub open spec fn hex_token_error(t: Seq<char>) -> Seq<char> {
    "HEX 字节“"@ + t + "”无效，请使用空白分隔的两位字节。"@
}

/// Whitespace-separated hexadecimal bytes: the bytes, or the message for the
/// first token that is not exactly two hexadecimal digits.
pub open spec fn hex_decode(s: Seq<char>) -> Result<Seq<u8>, Seq<char>>
    decreases s.len(),
{
    if s.len() == 0 {
        Ok(Seq::<u8>::empty())
    } else if is_ws(s[0]) {
        hex_decode(s.drop_first())
    } else {
        let n = token_len(s);
        let t = s.take(n as int);
        if is_hex_byte_token(t) {
            proof {
                lemma_token_len_bound(s);
            }
            match hex_decode(s.skip(n as int)) {
                Ok(rest) => Ok(seq![hex_token_value(t)] + rest),
                Err(e) => Err(e),
            }
        } else {
            Err(hex_token_error(t))
        }
    }
}

/// `acc` followed by the outcome `r`.
pub open spec fn prepend_bytes(acc: Seq<u8>, r: Result<Seq<u8>, Seq<char>>) -> Result<
    Seq<u8>,
    Seq<char>,
> {
    match r {
        Ok(rest) => Ok(acc + rest),
        Err(e) => Err(e),
    }
}

/// The bytes an input line denotes in the given format, with CR LF appended
/// on request.
pub open spec fn decode_spec(input: Seq<char>, format: PayloadFormat, append_crlf: bool) -> Result<
    Seq<u8>,
    Seq<char>,
> {
    let body = match format {
        PayloadFormat::Text => Ok(encode_utf8(input)),
        PayloadFormat::Hex => hex_decode(input),
    };
    match body {
        Ok(b) => Ok(
            if append_crlf {
                b + seq![13u8, 10u8]
            } else {
                b
            },
        ),
        Err(e) => Err(e),
    }
}

pub proof fn lemma_token_len_bound(s: Seq<char>)
    ensures
        token_len(s) <= s.len(),
        s.len() > 0 && !is_ws(s[0]) ==> token_len(s) >= 1,
    decreases s.len(),
{
    if s.len() > 0 && !is_ws(s[0]) {
        lemma_token_len_bound(s.drop_first());
    }
}

proof fn lemma_token_len(s: Seq<char>, i: int, j: int)
    requires
        0 <= i <= j <= s.len(),
        forall|k: int| i <= k < j ==> !is_ws(#[trigger] s[k]),
        j == s.len() || is_ws(s[j]),
    ensures
        token_len(s.skip(i)) == j - i,
    decreases j - i,
{
    if i < j {
        lemma_token_len(s, i + 1, j);
        assert(s.skip(i).drop_first() =~= s.skip(i + 1));
    } else if j < s.len() {
        assert(s.skip(i)[0] == s[j]);
    }
}

/// An upper-case hexadecimal digit is read back as its value.
proof fn lemma_hex_upper_value(d: nat)
    requires
        d < 16,
    ensures
        is_ascii_hex(hex_upper(d)),
        hex_value(hex_upper(d)) == d,
        !is_ws(hex_upper(d)),
{
    if d < 10 {
        assert(hex_upper(d) as u32 == '0' as u32 + d);
    } else {
        assert(hex_upper(d) as u32 == 'A' as u32 + (d - 10));
    }
}

/// The rendering of several bytes is the first byte, a space, and the
/// rendering of the others.
proof fn lemma_hex_render_front(b: Seq<u8>)
    requires
        b.len() >= 2,
    ensures
        hex_render(b) == hex_byte_upper(b[0]) + " "@ + hex_render(b.drop_first()),
    decreases b.len(),
{
    if b.len() == 2 {
        assert(b.drop_last() =~= seq![b[0]]);
        assert(b.drop_first() =~= seq![b[1]]);
        assert(hex_render(b.drop_last()) == hex_byte_upper(b[0]));
    } else {
        lemma_hex_render_front(b.drop_last());
        assert(b.drop_last().drop_first() =~= b.drop_first().drop_last());
        assert(b.drop_first().last() == b.last());
        assert(b.drop_last()[0] == b[0]);
    }
}

/// A byte rendered in front of nothing or of whitespace is read back first.
proof fn lemma_hex_decode_byte_then(x: u8, rest: Seq<char>)
    requires
        rest.len() == 0 || is_ws(rest[0]),
    ensures
        hex_decode(hex_byte_upper(x) + rest) == prepend_bytes(seq![x], hex_decode(rest)),
{
    let s = hex_byte_upper(x) + rest;
    lemma_hex_upper_value((x / 16) as nat);
    lemma_hex_upper_value((x % 16) as nat);
    assert(s[0] == hex_upper((x / 16) as nat));
    assert(s[1] == hex_upper((x % 16) as nat));
    assert(forall|k: int| 0 <= k < 2 ==> !is_ws(#[trigger] s[k]));
    if rest.len() > 0 {
        assert(s[2] == rest[0]);
    }
    lemma_token_len(s, 0, 2);
    assert(s.skip(0) =~= s);
    let t = s.take(2);
    assert(t =~= hex_byte_upper(x));
    assert(is_hex_byte_token(t));
    assert((x / 16) * 16 + x % 16 == x) by (nonlinear_arith);
    assert(hex_token_value(t) == x);
    assert(s.skip(2) =~= rest);
}

/// Whitespace before the text is skipped.
proof fn lemma_hex_decode_space(rest: Seq<char>)
    ensures
        hex_decode(" "@ + rest) == hex_decode(rest),
{
    reveal_strlit(" ");
    let s = " "@ + rest;
    assert(s[0] == ' ');
    assert(s.drop_first() =~= rest);
}

/// Bytes shown in hexadecimal, entered again in hexadecimal, give back the
/// same bytes: the display of the log can be pasted into the send box.
pub proof fn lemma_hex_round_trip(b: Seq<u8>)
    ensures
        decode_spec(render_spec(b, PayloadFormat::Hex), PayloadFormat::Hex, false) == Ok::<Seq<u8>, Seq<char>>(b),
    decreases b.len(),
{
    lemma_hex_render_decodes(b);
}

proof fn lemma_hex_render_decodes(b: Seq<u8>)
    ensures
        hex_decode(hex_render(b)) == Ok::<Seq<u8>, Seq<char>>(b),
    decreases b.len(),
{
    if b.len() == 0 {
        assert(b =~= Seq::<u8>::empty());
    } else if b.len() == 1 {
        lemma_hex_decode_byte_then(b[0], Seq::<char>::empty());
        assert(hex_byte_upper(b[0]) + Seq::<char>::empty() =~= hex_byte_upper(b[0]));
        assert(seq![b[0]] + Seq::<u8>::empty() =~= b);
        assert(hex_decode(Seq::<char>::empty()) == Ok::<Seq<u8>, Seq<char>>(Seq::<u8>::empty()));
        assert(hex_render(b) == hex_byte_upper(b[0]));
    } else {
        lemma_hex_render_front(b);
        let rest = " "@ + hex_render(b.drop_first());
        reveal_strlit(" ");
        assert(rest[0] == ' ');
        lemma_hex_decode_byte_then(b[0], rest);
        assert(hex_byte_upper(b[0]) + " "@ + hex_render(b.drop_first()) =~= hex_byte_upper(b[0]) + rest);
        lemma_hex_decode_space(hex_render(b.drop_first()));
        lemma_hex_render_decodes(b.drop_first());
        assert(hex_decode(rest) == Ok::<Seq<u8>, Seq<char>>(b.drop_first()));
        assert(hex_decode(hex_render(b)) == prepend_bytes(seq![b[0]], hex_decode(rest)));
        assert(seq![b[0]] + b.drop_first() =~= b);
    }
}

/// Text without control characters is displayed as it is.
proof fn lemma_text_escape_plain(t: Seq<char>)
    requires
        forall|k: int| 0 <= k < t.len() ==> !is_control(#[trigger] t[k]),
    ensures
        text_escape(t) == t,
    decreases t.len(),
{
    if t.len() > 0 {
        lemma_text_escape_plain(t.drop_last());
        let c = t.last();
        assert(!is_control(c));
        assert(c != '\r' && c != '\n' && c != '\t' && c != '\0');
        assert(t.drop_last() + seq![c] =~= t);
    }
}

/// Text typed into the send box without control characters is displayed in
/// the log as the same text: sending in text format and showing in text
/// format give back what was typed.
pub proof fn lemma_text_round_trip(text: Seq<char>)
    requires
        forall|k: int| 0 <= k < text.len() ==> !is_control(#[trigger] text[k]),
    ensures
        decode_spec(text, PayloadFormat::Text, false) matches Ok(bytes) && render_spec(bytes, PayloadFormat::Text)
            == text,
{
    vstd::utf8::encode_utf8_valid_utf8(text);
    vstd::utf8::encode_utf8_decode_utf8(text);
    lemma_text_escape_plain(text);
}

/// Value of an ASCII hexadecimal digit.
fn hex_digit_value(c: char) -> (v: u8)
    requires
        is_ascii_hex(c),
    ensures
        v == hex_value(c),
        v < 16,
{
    if '0' <= c && c <= '9' {
        (c as u32 - '0' as u32) as u8
    } else if 'a' <= c && c <= 'f' {
        (c as u32 - 'a' as u32 + 10) as u8
    } else {
        (c as u32 - 'A' as u32 + 10) as u8
    }
}

/// Converts the content of the send box into raw bytes: the UTF-8 text, or
/// whitespace-separated hexadecimal bytes of exactly two digits each; CR LF
/// is appended when asked.
pub fn decode_payload(input: &str, format: PayloadFormat, append_crlf: bool) -> (r: Result<
    Vec<u8>,
    String,
>)
    ensures
        match decode_spec(input@, format, append_crlf) {
            Ok(b) => r matches Ok(v) && v@ == b,
            Err(m) => r matches Err(e) && e@ == m,
        },
{
    let mut payload: Vec<u8> = match format {
        PayloadFormat::Text => vstd::slice::slice_to_vec(input.as_bytes()),
        PayloadFormat::Hex => {
            let chars = chars_of(input);
            let n = chars.len();
            let mut out: Vec<u8> = Vec::new();
            let mut i: usize = 0;
            assert(chars@.skip(0) =~= chars@);
            while i < n
                invariant
                    n == chars@.len(),
                    chars@ == input@,
                    format == PayloadFormat::Hex,
                    i <= n,
                    hex_decode(chars@) == prepend_bytes(out@, hex_decode(chars@.skip(i as int))),
                decreases n - i,
            {
                let ghost rest = chars@.skip(i as int);
                if char_is_ws(chars[i]) {
                    assert(rest.drop_first() =~= chars@.skip(i + 1));
                    i = i + 1;
                } else {
                    let mut j = i;
                    while j < n && !char_is_ws(chars[j])
                        invariant
                            i <= j <= n == chars@.len(),
                            forall|k: int| i <= k < j ==> !is_ws(#[trigger] chars@[k]),
                        decreases n - j,
                    {
                        j = j + 1;
                    }
                    proof {
                        lemma_token_len(chars@, i as int, j as int);
                    }
                    let ghost t = rest.take((j - i) as int);
                    assert(t =~= chars@.subrange(i as int, j as int));
                    if j - i == 2 && (('0' <= chars[i] && chars[i] <= '9') || ('a' <= chars[i]
                        && chars[i] <= 'f') || ('A' <= chars[i] && chars[i] <= 'F')) && ((
                    '0' <= chars[i + 1] && chars[i + 1] <= '9') || ('a' <= chars[i + 1]
                        && chars[i + 1] <= 'f') || ('A' <= chars[i + 1] && chars[i + 1] <= 'F')) {
                        let hi = hex_digit_value(chars[i]);
                        let lo = hex_digit_value(chars[i + 1]);
                        let byte = hi * 16 + lo;
                        assert(byte == hex_token_value(t));
                        assert(rest.skip(2) =~= chars@.skip(j as int));
                        let ghost before = out@;
                        out.push(byte);
                        assert(out@ =~= before + seq![byte]);
                        assert(prepend_bytes(before, hex_decode(rest)) == prepend_bytes(
                            out@,
                            hex_decode(chars@.skip(j as int)),
                        )) by {
                            match hex_decode(chars@.skip(j as int)) {
                                Ok(tail) => {
                                    assert(before + (seq![byte] + tail) =~= out@ + tail);
                                },
                                Err(_) => {},
                            }
                        }
                        i = j;
                    } else {
                        assert(!is_hex_byte_token(t));
                        assert(rest[0] == chars@[i as int]);
                        assert(hex_decode(rest) == Err::<Seq<u8>, Seq<char>>(hex_token_error(t)));
                        let mut message = String::new();
                        push_str(&mut message, "HEX 字节“");
                        push_chars(&mut message, &chars, i, j);
                        push_str(&mut message, "”无效，请使用空白分隔的两位字节。");
                        assert(message@ =~= hex_token_error(t));
                        return Err(message);
                    }
                }
            }
            assert(chars@.skip(n as int) =~= Seq::<char>::empty());
            assert(out@ + Seq::<u8>::empty() =~= out@);
            out
        },
    };
    if append_crlf {
        payload.push(13u8);
        payload.push(10u8);
    }
    Ok(payload)
}


/// Sum of the payload lengths of `s`.
pub open spec fn total_payload(s: Seq<CommunicationRecord>) -> nat
    decreases s.len(),
{
    if s.len() == 0 {
        0
    } else {
        s[0].payload@.len() + total_payload(s.drop_first())
    }
}

/// `n + 1`, saturating at `u64::MAX`.
pub open spec fn sat_inc(n: u64) -> u64 {
    if n == u64::MAX {
        n
    } else {
        (n + 1) as u64
    }
}

/// Records whose next arrival of `incoming` bytes would exceed a limit.
pub open spec fn over_limits(recs: Seq<CommunicationRecord>, incoming: nat) -> bool {
    recs.len() >= MAX_LOG_RECORDS || total_payload(recs) + incoming > MAX_LOG_PAYLOAD_BYTES
}

/// Evicts the oldest records, counting them, until `incoming` more bytes fit
/// or nothing is left.
pub open spec fn evict_for(recs: Seq<CommunicationRecord>, evicted: u64, incoming: nat) -> (Seq<
    CommunicationRecord,
>, u64)
    decreases recs.len(),
{
    if recs.len() > 0 && over_limits(recs, incoming) {
        evict_for(recs.drop_first(), sat_inc(evicted), incoming)
    } else {
        (recs, evicted)
    }
}

/// Appends one record: room is made first, and a record larger than the
/// whole byte limit is counted as evicted instead of being kept.
pub open spec fn push_one(st: (Seq<CommunicationRecord>, u64), r: CommunicationRecord) -> (Seq<
    CommunicationRecord,
>, u64) {
    let e = evict_for(st.0, st.1, r.payload@.len());
    if r.payload@.len() > MAX_LOG_PAYLOAD_BYTES {
        (e.0, sat_inc(e.1))
    } else {
        (e.0.push(r), e.1)
    }
}

/// Appends a batch, record by record, in order.
pub open spec fn push_all(st: (Seq<CommunicationRecord>, u64), batch: Seq<CommunicationRecord>) -> (
    Seq<CommunicationRecord>,
    u64,
)
    decreases batch.len(),
{
    if batch.len() == 0 {
        st
    } else {
        push_one(push_all(st, batch.drop_last()), batch.last())
    }
}

/// The records that a log can hold at all: those within the byte limit.
pub open spec fn storable(batch: Seq<CommunicationRecord>) -> Seq<CommunicationRecord>
    decreases batch.len(),
{
    if batch.len() == 0 {
        batch
    } else if batch.last().payload@.len() <= MAX_LOG_PAYLOAD_BYTES {
        storable(batch.drop_last()).push(batch.last())
    } else {
        storable(batch.drop_last())
    }
}

/// Both limits hold.
pub open spec fn within_limits(recs: Seq<CommunicationRecord>) -> bool {
    recs.len() <= MAX_LOG_RECORDS && total_payload(recs) <= MAX_LOG_PAYLOAD_BYTES
}

/// One exported line of a record.
pub open spec fn export_line(r: CommunicationRecord, format: PayloadFormat) -> Seq<char> {
    log_escape(r.timestamp@) + "\t"@ + r.direction.spec_label() + "\t"@ + log_escape(r.endpoint@)
        + "\t"@ + decimal(r.payload@.len()) + "\t"@ + r.spec_display_content(format) + "\n"@
}

/// The exported lines of `recs`, in order.
pub open spec fn export_lines(recs: Seq<CommunicationRecord>, format: PayloadFormat) -> Seq<char>
    decreases recs.len(),
{
    if recs.len() == 0 {
        Seq::<char>::empty()
    } else {
        export_lines(recs.drop_last(), format) + export_line(recs.last(), format)
    }
}

/// The header line of an export.
pub open spec fn export_header() -> Seq<char> {
    "时间\t方向\t端点\t字节数\t内容\n"@
}

/// No character of `s` is `c`.
pub open spec fn lacks_char(s: Seq<char>, c: char) -> bool {
    forall|i: int| 0 <= i < s.len() ==> s[i] != c
}

proof fn lemma_lacks_concat(a: Seq<char>, b: Seq<char>, c: char)
    requires
        lacks_char(a, c),
        lacks_char(b, c),
    ensures
        lacks_char(a + b, c),
{
    assert forall|i: int| 0 <= i < (a + b).len() implies (a + b)[i] != c by {
        if i < a.len() {
            assert((a + b)[i] == a[i]);
        } else {
            assert((a + b)[i] == b[i - a.len()]);
        }
    }
}

/// Text without `sep` is one field.
proof fn lemma_split_single(x: Seq<char>, sep: char)
    requires
        lacks_char(x, sep),
    ensures
        split_char(x, sep) == seq![x],
    decreases x.len(),
{
    if x.len() > 0 {
        lemma_split_single(x.drop_last(), sep);
        assert(x.drop_last().push(x.last()) =~= x);
        assert(seq![x.drop_last()].update(0, x.drop_last().push(x.last())) =~= seq![x]);
    } else {
        assert(x =~= Seq::<char>::empty());
    }
}

/// Appending a separator and a field without separator adds that field.
proof fn lemma_split_field(x: Seq<char>, y: Seq<char>, sep: char)
    requires
        lacks_char(y, sep),
    ensures
        split_char(x + seq![sep] + y, sep) == split_char(x, sep).push(y),
    decreases y.len(),
{
    let s = x + seq![sep] + y;
    if y.len() == 0 {
        assert(s.drop_last() =~= x);
        assert(y =~= Seq::<char>::empty());
    } else {
        lemma_split_field(x, y.drop_last(), sep);
        assert(s.drop_last() =~= x + seq![sep] + y.drop_last());
        assert(s.last() == y.last());
        let rest = split_char(x, sep).push(y.drop_last());
        assert(y.drop_last().push(y.last()) =~= y);
        assert(rest.update(rest.len() - 1, rest.last().push(y.last())) =~= split_char(x, sep).push(y));
    }
}

/// A character with a scalar value other than 9 is not a tab.
proof fn lemma_not_tab(c: char)
    requires
        (c as u32) != 9,
    ensures
        c != '\t',
{
}

proof fn lemma_log_escape_no_tab(s: Seq<char>)
    ensures
        lacks_char(log_escape(s), '\t'),
    decreases s.len(),
{
    reveal_strlit("\\\\");
    reveal_strlit("\\t");
    reveal_strlit("\\r");
    reveal_strlit("\\n");
    if s.len() > 0 {
        lemma_log_escape_no_tab(s.drop_last());
        lemma_lacks_concat(log_escape(s.drop_last()), log_escape_char(s.last()), '\t');
    }
}

proof fn lemma_hex_lower_digits_no_tab(n: nat)
    ensures
        lacks_char(hex_lower_digits(n), '\t'),
    decreases n,
{
    let d = (n % 16) as nat;
    let c = crate::text::hex_lower(d);
    assert((c as u32) != 9);
    if n >= 16 {
        lemma_hex_lower_digits_no_tab(n / 16);
        lemma_lacks_concat(hex_lower_digits(n / 16), seq![c], '\t');
        assert(hex_lower_digits(n) =~= hex_lower_digits(n / 16) + seq![c]);
    }
}

proof fn lemma_text_escape_no_tab(s: Seq<char>)
    ensures
        lacks_char(text_escape(s), '\t'),
    decreases s.len(),
{
    reveal_strlit("\\r");
    reveal_strlit("\\n");
    reveal_strlit("\\t");
    reveal_strlit("\\0");
    reveal_strlit("\\u{");
    reveal_strlit("}");
    if s.len() > 0 {
        lemma_text_escape_no_tab(s.drop_last());
        let c = s.last();
        if !(c == '\r' || c == '\n' || c == '\t' || c == '\0') && is_control(c) {
            lemma_hex_lower_digits_no_tab(c as nat);
            lemma_lacks_concat("\\u{"@, hex_lower_digits(c as nat), '\t');
            lemma_lacks_concat("\\u{"@ + hex_lower_digits(c as nat), "}"@, '\t');
        }
        lemma_lacks_concat(text_escape(s.drop_last()), text_escape_char(c), '\t');
    }
}

proof fn lemma_hex_render_no_tab(b: Seq<u8>)
    ensures
        lacks_char(hex_render(b), '\t'),
    decreases b.len(),
{
    reveal_strlit(" ");
    if b.len() > 0 {
        let x = b.last();
        let h = hex_byte_upper(x);
        assert((hex_upper((x / 16) as nat) as u32) != 9);
        assert((hex_upper((x % 16) as nat) as u32) != 9);
        assert(lacks_char(h, '\t'));
        if b.len() > 1 {
            lemma_hex_render_no_tab(b.drop_last());
            lemma_lacks_concat(hex_render(b.drop_last()), " "@, '\t');
            lemma_lacks_concat(hex_render(b.drop_last()) + " "@, h, '\t');
        }
    }
}

proof fn lemma_decimal_no_tab(n: nat)
    ensures
        lacks_char(decimal(n), '\t'),
    decreases n,
{
    let c = crate::text::digit_char(n % 10);
    assert((c as u32) != 9);
    if n >= 10 {
        lemma_decimal_no_tab(n / 10);
        assert(decimal(n) =~= decimal(n / 10) + seq![c]);
        lemma_lacks_concat(decimal(n / 10), seq![c], '\t');
    }
}

/// The displayed content of a record holds no tab.
proof fn lemma_display_content_no_tab(r: CommunicationRecord, format: PayloadFormat)
    ensures
        lacks_char(r.spec_display_content(format), '\t'),
{
    reveal_strlit(" [含无效 UTF-8，已替换显示]");
    match r.note {
        Some(note) => lemma_log_escape_no_tab(note@),
        None => {
            let p = r.payload@;
            match r.spec_display_format(format) {
                PayloadFormat::Hex => lemma_hex_render_no_tab(p),
                PayloadFormat::Text => {
                    if valid_utf8(p) {
                        lemma_text_escape_no_tab(decode_utf8(p));
                    } else {
                        lemma_text_escape_no_tab(utf8_lossy(p));
                        lemma_lacks_concat(text_escape(utf8_lossy(p)), invalid_utf8_notice(), '\t');
                    }
                },
            }
        },
    }
}

/// An exported line is a row of the export table: it ends the line, and
/// split at its tabs it has exactly the five columns of the header, in the
/// header's order: the escaped time, the direction, the escaped endpoint,
/// the number of payload bytes and the displayed content.
pub proof fn lemma_export_line_matches_header(r: CommunicationRecord, format: PayloadFormat)
    ensures
        export_line(r, format).len() > 0,
        export_line(r, format).last() == '\n',
        split_char(export_line(r, format).drop_last(), '\t') == seq![
            log_escape(r.timestamp@),
            r.direction.spec_label(),
            log_escape(r.endpoint@),
            decimal(r.payload@.len()),
            r.spec_display_content(format),
        ],
        split_char(export_header().drop_last(), '\t') == seq!["时间"@, "方向"@, "端点"@, "字节数"@, "内容"@],
{
    reveal_strlit("\t");
    reveal_strlit("\n");
    reveal_strlit("RX");
    reveal_strlit("TX");
    reveal_strlit("STATE");
    reveal_strlit("时间\t方向\t端点\t字节数\t内容\n");
    reveal_strlit("时间");
    reveal_strlit("方向");
    reveal_strlit("端点");
    reveal_strlit("字节数");
    reveal_strlit("内容");
    let t = seq!['\t'];
    assert("\t"@ =~= t);
    let f0 = log_escape(r.timestamp@);
    let f1 = r.direction.spec_label();
    let f2 = log_escape(r.endpoint@);
    let f3 = decimal(r.payload@.len());
    let f4 = r.spec_display_content(format);
    lemma_log_escape_no_tab(r.timestamp@);
    lemma_log_escape_no_tab(r.endpoint@);
    lemma_decimal_no_tab(r.payload@.len());
    lemma_display_content_no_tab(r, format);
    assert(lacks_char(f1, '\t'));
    let line = export_line(r, format);
    assert(line =~= f0 + t + f1 + t + f2 + t + f3 + t + f4 + "\n"@);
    assert(line.drop_last() =~= f0 + t + f1 + t + f2 + t + f3 + t + f4);
    lemma_split_single(f0, '\t');
    lemma_split_field(f0, f1, '\t');
    lemma_split_field(f0 + t + f1, f2, '\t');
    lemma_split_field(f0 + t + f1 + t + f2, f3, '\t');
    lemma_split_field(f0 + t + f1 + t + f2 + t + f3, f4, '\t');
    assert(seq![f0].push(f1).push(f2).push(f3).push(f4) =~= seq![f0, f1, f2, f3, f4]);
    let h = export_header();
    assert(h.drop_last() =~= "时间"@ + t + "方向"@ + t + "端点"@ + t + "字节数"@ + t + "内容"@);
    assert(lacks_char("时间"@, '\t'));
    assert(lacks_char("方向"@, '\t'));
    assert(lacks_char("端点"@, '\t'));
    assert(lacks_char("字节数"@, '\t'));
    assert(lacks_char("内容"@, '\t'));
    lemma_split_single("时间"@, '\t');
    lemma_split_field("时间"@, "方向"@, '\t');
    lemma_split_field("时间"@ + t + "方向"@, "端点"@, '\t');
    lemma_split_field("时间"@ + t + "方向"@ + t + "端点"@, "字节数"@, '\t');
    lemma_split_field("时间"@ + t + "方向"@ + t + "端点"@ + t + "字节数"@, "内容"@, '\t');
    assert(seq!["时间"@].push("方向"@).push("端点"@).push("字节数"@).push("内容"@) =~= seq![
        "时间"@,
        "方向"@,
        "端点"@,
        "字节数"@,
        "内容"@,
    ]);
}

pub proof fn lemma_total_push(s: Seq<CommunicationRecord>, r: CommunicationRecord)
    ensures
        total_payload(s.push(r)) == total_payload(s) + r.payload@.len(),
    decreases s.len(),
{
    if s.len() > 0 {
        lemma_total_push(s.drop_first(), r);
        assert(s.push(r).drop_first() =~= s.drop_first().push(r));
        assert(s.push(r)[0] == s[0]);
    } else {
        assert(s.push(r).drop_first() =~= Seq::<CommunicationRecord>::empty());
        assert(total_payload(s.push(r).drop_first()) == 0);
        assert(s.push(r)[0] == r);
        assert(total_payload(s) == 0);
    }
}

proof fn lemma_evict_within(recs: Seq<CommunicationRecord>, evicted: u64, incoming: nat)
    requires
        within_limits(recs),
    ensures
        within_limits(evict_for(recs, evicted, incoming).0),
        evict_for(recs, evicted, incoming).0.len() == 0 || !over_limits(
            evict_for(recs, evicted, incoming).0,
            incoming,
        ),
        exists|k: int|
            0 <= k <= recs.len() && #[trigger] recs.skip(k) == evict_for(recs, evicted, incoming).0,
    decreases recs.len(),
{
    if recs.len() > 0 && over_limits(recs, incoming) {
        lemma_evict_within(recs.drop_first(), sat_inc(evicted), incoming);
        let k = choose|k: int|
            0 <= k <= recs.drop_first().len() && #[trigger] recs.drop_first().skip(k) == evict_for(
                recs.drop_first(),
                sat_inc(evicted),
                incoming,
            ).0;
        assert(recs.skip(k + 1) =~= recs.drop_first().skip(k));
    } else {
        assert(recs.skip(0) =~= recs);
    }
}

/// Pushing records never breaks the two limits of the log: it keeps at most
/// `MAX_LOG_RECORDS` records and `MAX_LOG_PAYLOAD_BYTES` payload bytes.
pub proof fn lemma_push_all_within_limits(
    st: (Seq<CommunicationRecord>, u64),
    batch: Seq<CommunicationRecord>,
)
    requires
        within_limits(st.0),
    ensures
        within_limits(push_all(st, batch).0),
    decreases batch.len(),
{
    if batch.len() > 0 {
        lemma_push_all_within_limits(st, batch.drop_last());
        lemma_push_one_within_limits(push_all(st, batch.drop_last()), batch.last());
    }
}

/// One push keeps both limits.
pub proof fn lemma_push_one_within_limits(st: (Seq<CommunicationRecord>, u64), r: CommunicationRecord)
    requires
        within_limits(st.0),
    ensures
        within_limits(push_one(st, r).0),
{
    let inc = r.payload@.len();
    lemma_evict_within(st.0, st.1, inc);
    let e = evict_for(st.0, st.1, inc);
    if inc <= MAX_LOG_PAYLOAD_BYTES {
        lemma_total_push(e.0, r);
        if e.0.len() == 0 {
            assert(total_payload(e.0) == 0);
        }
    }
}

/// A record that fits the byte limit is the newest record right after it is
/// pushed.
pub proof fn lemma_push_keeps_newest(st: (Seq<CommunicationRecord>, u64), r: CommunicationRecord)
    requires
        r.payload@.len() <= MAX_LOG_PAYLOAD_BYTES,
    ensures
        push_one(st, r).0.len() > 0,
        push_one(st, r).0.last() == r,
{
}

/// The log only ever drops its oldest records: after a batch it holds a
/// suffix of the earlier records followed by the storable records of the
/// batch, in their order.
pub proof fn lemma_push_all_drops_only_oldest(
    st: (Seq<CommunicationRecord>, u64),
    batch: Seq<CommunicationRecord>,
)
    requires
        within_limits(st.0),
    ensures
        exists|k: int|
            0 <= k <= st.0.len() + storable(batch).len() && #[trigger] (st.0 + storable(
                batch,
            )).skip(k) == push_all(st, batch).0,
    decreases batch.len(),
{
    if batch.len() == 0 {
        assert(storable(batch) =~= Seq::<CommunicationRecord>::empty());
        assert((st.0 + storable(batch)).skip(0) =~= st.0);
    } else {
        let prev = push_all(st, batch.drop_last());
        lemma_push_all_drops_only_oldest(st, batch.drop_last());
        lemma_push_all_within_limits(st, batch.drop_last());
        let k = choose|k: int|
            0 <= k <= st.0.len() + storable(batch.drop_last()).len() && #[trigger] (st.0
                + storable(batch.drop_last())).skip(k) == prev.0;
        let r = batch.last();
        lemma_evict_within(prev.0, prev.1, r.payload@.len());
        let j = choose|j: int|
            0 <= j <= prev.0.len() && #[trigger] prev.0.skip(j) == evict_for(
                prev.0,
                prev.1,
                r.payload@.len(),
            ).0;
        let base = st.0 + storable(batch.drop_last());
        assert(batch =~= batch.drop_last().push(r));
        assert(base.skip(k).skip(j) =~= base.skip(k + j));
        if r.payload@.len() <= MAX_LOG_PAYLOAD_BYTES {
            assert(storable(batch) =~= storable(batch.drop_last()).push(r));
            assert((base.push(r)).skip(k + j) =~= base.skip(k + j).push(r));
            assert(st.0 + storable(batch) =~= base.push(r));
        } else {
            assert(storable(batch) =~= storable(batch.drop_last()));
        }
    }
}

/// The longest suffix of `s` that keeps both limits of the log.
pub open spec fn longest_fitting_suffix(s: Seq<CommunicationRecord>) -> Seq<CommunicationRecord>
    decreases s.len(),
{
    if s.len() == 0 || within_limits(s) {
        s
    } else {
        longest_fitting_suffix(s.drop_first())
    }
}

/// Every record of `batch` fits the byte limit on its own.
pub open spec fn all_storable(batch: Seq<CommunicationRecord>) -> bool {
    forall|i: int| 0 <= i < batch.len() ==> (#[trigger] batch[i]).payload@.len() <= MAX_LOG_PAYLOAD_BYTES
}

proof fn lemma_within_limits_drop_first(s: Seq<CommunicationRecord>)
    requires
        s.len() > 0,
        within_limits(s),
    ensures
        within_limits(s.drop_first()),
{
}

/// `longest_fitting_suffix(s)` is `s` without its first `k` records for some
/// `k`, it keeps both limits, and no longer suffix of `s` does.
pub proof fn lemma_longest_fitting_suffix_is_longest(s: Seq<CommunicationRecord>)
    ensures
        within_limits(longest_fitting_suffix(s)),
        exists|k: int|
            0 <= k <= s.len() && #[trigger] s.skip(k) == longest_fitting_suffix(s) && forall|j: int|
                0 <= j < k ==> !within_limits(#[trigger] s.skip(j)),
    decreases s.len(),
{
    if s.len() == 0 || within_limits(s) {
        assert(s.skip(0) =~= s);
        assert(total_payload(Seq::<CommunicationRecord>::empty()) == 0);
    } else {
        let t = s.drop_first();
        lemma_longest_fitting_suffix_is_longest(t);
        let k = choose|k: int|
            0 <= k <= t.len() && #[trigger] t.skip(k) == longest_fitting_suffix(t) && forall|j: int|
                0 <= j < k ==> !within_limits(#[trigger] t.skip(j));
        assert(s.skip(k + 1) =~= t.skip(k));
        assert forall|j: int| 0 <= j < k + 1 implies !within_limits(#[trigger] s.skip(j)) by {
            if j == 0 {
                assert(s.skip(0) =~= s);
            } else {
                assert(s.skip(j) =~= t.skip(j - 1));
            }
        }
    }
}

/// Making room for `r` and appending it leaves the longest fitting suffix of
/// the records followed by `r`, and counts each record dropped.
proof fn lemma_evict_then_push(recs: Seq<CommunicationRecord>, evicted: u64, r: CommunicationRecord)
    requires
        r.payload@.len() <= MAX_LOG_PAYLOAD_BYTES,
        evicted + recs.len() <= u64::MAX,
    ensures
        evict_for(recs, evicted, r.payload@.len()).0.push(r) == longest_fitting_suffix(recs.push(r)),
        evict_for(recs, evicted, r.payload@.len()).1 == evicted + recs.len() - evict_for(
            recs,
            evicted,
            r.payload@.len(),
        ).0.len(),
        evict_for(recs, evicted, r.payload@.len()).0.len() <= recs.len(),
    decreases recs.len(),
{
    let inc = r.payload@.len();
    lemma_total_push(recs, r);
    if recs.len() > 0 && over_limits(recs, inc) {
        assert(recs.push(r).drop_first() =~= recs.drop_first().push(r));
        assert(!within_limits(recs.push(r)));
        lemma_evict_then_push(recs.drop_first(), sat_inc(evicted), r);
    } else if recs.len() == 0 {
        assert(recs.push(r).drop_first() =~= Seq::<CommunicationRecord>::empty());
        assert(total_payload(Seq::<CommunicationRecord>::empty()) == 0);
        assert(within_limits(recs.push(r)));
    } else {
        assert(within_limits(recs.push(r)));
    }
}

/// Taking the longest fitting suffix before or after appending `r` gives
/// the same records.
proof fn lemma_fitting_suffix_of_push(x: Seq<CommunicationRecord>, r: CommunicationRecord)
    ensures
        longest_fitting_suffix(longest_fitting_suffix(x).push(r)) == longest_fitting_suffix(x.push(r)),
    decreases x.len(),
{
    if x.len() == 0 || within_limits(x) {
    } else {
        lemma_total_push(x, r);
        assert(!within_limits(x.push(r)));
        assert(x.push(r).drop_first() =~= x.drop_first().push(r));
        lemma_fitting_suffix_of_push(x.drop_first(), r);
    }
}

/// A log that keeps both limits, after a batch of records that each fit the
/// byte limit, holds exactly the longest suffix of its old records followed
/// by the batch that keeps both limits, in order, and counts every other
/// record of the two as evicted, as long as the counter does not saturate.
pub proof fn lemma_push_all_keeps_longest_fitting_suffix(
    st: (Seq<CommunicationRecord>, u64),
    batch: Seq<CommunicationRecord>,
)
    requires
        within_limits(st.0),
        all_storable(batch),
        st.1 + st.0.len() + batch.len() <= u64::MAX,
    ensures
        push_all(st, batch).0 == longest_fitting_suffix(st.0 + batch),
        push_all(st, batch).1 == st.1 + st.0.len() + batch.len() - push_all(st, batch).0.len(),
    decreases batch.len(),
{
    if batch.len() == 0 {
        assert(st.0 + batch =~= st.0);
    } else {
        let b = batch.drop_last();
        let r = batch.last();
        assert(all_storable(b)) by {
            assert forall|i: int| 0 <= i < b.len() implies (#[trigger] b[i]).payload@.len()
                <= MAX_LOG_PAYLOAD_BYTES by {
                assert(b[i] == batch[i]);
            }
        }
        assert(r == batch[batch.len() - 1]);
        lemma_push_all_keeps_longest_fitting_suffix(st, b);
        let prev = push_all(st, b);
        lemma_longest_fitting_suffix_is_longest(st.0 + b);
        lemma_evict_then_push(prev.0, prev.1, r);
        lemma_fitting_suffix_of_push(st.0 + b, r);
        assert((st.0 + b).push(r) =~= st.0 + batch);
    }
}

/// Appends the export line of one record.
fn push_export_line(output: &mut String, record: &CommunicationRecord, format: PayloadFormat)
    ensures
        final(output)@ == old(output)@ + export_line(*record, format),
{
    let content = record.display_content(format);
    let timestamp = escape_log_field(record.timestamp.as_str());
    let endpoint = escape_log_field(record.endpoint.as_str());
    push_str(output, timestamp.as_str());
    push_str(output, "\t");
    push_str(output, record.direction.label());
    push_str(output, "\t");
    push_str(output, endpoint.as_str());
    push_str(output, "\t");
    push_decimal(output, record.payload.len() as u64);
    push_str(output, "\t");
    push_str(output, content.as_str());
    push_str(output, "\n");
    assert(output@ =~= old(output)@ + export_line(*record, format));
}

/// The log of one communication tool, bounded both in records and in raw
/// payload bytes; the oldest records make room for new ones.
#[derive(Debug)]
pub struct CommunicationLog {
    records: VecDeque<CommunicationRecord>,
    payload_bytes: usize,
    evicted_records: u64,
    queue_dropped_records: u64,
}

impl CommunicationLog {
    /// The kept records, oldest first.
    pub closed spec fn spec_records(self) -> Seq<CommunicationRecord> {
        self.records@
    }

    /// Records evicted or refused by the log itself (saturating).
    pub closed spec fn spec_evicted(self) -> u64 {
        self.evicted_records
    }

    /// Records the session dropped before they reached the log (saturating).
    pub closed spec fn spec_queue_dropped(self) -> u64 {
        self.queue_dropped_records
    }

    /// The byte counter matches the records and both limits hold.
    pub closed spec fn wf(self) -> bool {
        &&& self.payload_bytes == total_payload(self.records@)
        &&& within_limits(self.records@)
    }

    pub proof fn lemma_wf_within_limits(self)
        requires
            self.wf(),
        ensures
            within_limits(self.spec_records()),
    {
    }

    /// An empty log.
    pub fn new() -> (log: Self)
        ensures
            log.wf(),
            log.spec_records() == Seq::<CommunicationRecord>::empty(),
            log.spec_evicted() == 0,
            log.spec_queue_dropped() == 0,
    {
        CommunicationLog {
            records: VecDeque::new(),
            payload_bytes: 0,
            evicted_records: 0,
            queue_dropped_records: 0,
        }
    }

    /// The kept records, oldest first.
    pub fn records(&self) -> (r: &VecDeque<CommunicationRecord>)
        ensures
            r@ == self.spec_records(),
    {
        &self.records
    }

    /// Number of records the session dropped before they reached the log.
    pub fn queue_dropped_records(&self) -> (n: u64)
        ensures
            n == self.spec_queue_dropped(),
    {
        self.queue_dropped_records
    }

    /// Number of records evicted or refused by the log itself.
    pub fn evicted_records(&self) -> (n: u64)
        ensures
            n == self.spec_evicted(),
    {
        self.evicted_records
    }

    /// Number of raw payload bytes kept.
    pub fn payload_bytes(&self) -> (n: usize)
        requires
            self.wf(),
        ensures
            n == total_payload(self.spec_records()),
    {
        self.payload_bytes
    }

    /// Counts records dropped by a full event queue; the log itself and its
    /// eviction counter are unchanged.
    pub fn add_queue_dropped(&mut self, count: u64)
        ensures
            final(self).spec_queue_dropped() == (if old(self).spec_queue_dropped() as int + count
                > u64::MAX {
                u64::MAX as int
            } else {
                old(self).spec_queue_dropped() + count
            }),
            final(self).spec_records() == old(self).spec_records(),
            final(self).spec_evicted() == old(self).spec_evicted(),
            old(self).wf() ==> final(self).wf(),
    {
        if self.queue_dropped_records > u64::MAX - count {
            self.queue_dropped_records = u64::MAX;
        } else {
            self.queue_dropped_records = self.queue_dropped_records + count;
        }
    }

    fn evict_oldest(&mut self)
        requires
            old(self).wf(),
            old(self).records@.len() > 0,
        ensures
            final(self).wf(),
            final(self).records@ == old(self).records@.drop_first(),
            final(self).evicted_records == sat_inc(old(self).evicted_records),
            final(self).queue_dropped_records == old(self).queue_dropped_records,
    {
        let ghost before = self.records@;
        match self.records.pop_front() {
            Some(record) => {
                assert(self.records@ =~= before.drop_first());
                self.payload_bytes = self.payload_bytes - record.payload.len();
                if self.evicted_records < u64::MAX {
                    self.evicted_records = self.evicted_records + 1;
                }
            },
            None => {},
        }
    }

    /// Appends a batch of records in order. Before each record the oldest
    /// records are evicted until it fits both limits; a record larger than
    /// the whole byte limit is not kept and counts as evicted.
    pub fn push_batch(&mut self, records: Vec<CommunicationRecord>)
        requires
            old(self).wf(),
        ensures
            final(self).wf(),
            (final(self).spec_records(), final(self).spec_evicted()) == push_all(
                (old(self).spec_records(), old(self).spec_evicted()),
                records@,
            ),
            final(self).spec_queue_dropped() == old(self).spec_queue_dropped(),
    {
        let ghost start = (self.records@, self.evicted_records);
        let ghost batch = records@;
        assert(batch.take(0) =~= Seq::<CommunicationRecord>::empty());
        for record in it: records
            invariant
                self.wf(),
                it.seq() == batch,
                (self.records@, self.evicted_records) == push_all(start, batch.take(it.index() as int)),
                self.queue_dropped_records == old(self).queue_dropped_records,
        {
            let ghost index = it.index();
            assert(record == batch[index as int]);
            let incoming = record.payload.len();
            let ghost mid = (self.records@, self.evicted_records);
            while self.records.len() > 0 && (self.records.len() >= MAX_LOG_RECORDS || incoming
                > MAX_LOG_PAYLOAD_BYTES - self.payload_bytes)
                invariant
                    self.wf(),
                    incoming == record.payload@.len(),
                    evict_for(mid.0, mid.1, incoming as nat) == evict_for(
                        self.records@,
                        self.evicted_records,
                        incoming as nat,
                    ),
                    self.queue_dropped_records == old(self).queue_dropped_records,
                decreases self.records@.len(),
            {
                self.evict_oldest();
            }
            if incoming > MAX_LOG_PAYLOAD_BYTES {
                if self.evicted_records < u64::MAX {
                    self.evicted_records = self.evicted_records + 1;
                }
            } else {
                proof {
                    lemma_total_push(self.records@, record);
                }
                self.payload_bytes = self.payload_bytes + incoming;
                self.records.push_back(record);
            }
            proof {
                assert(batch.take(index + 1).drop_last() =~= batch.take(index as int));
            }
        }
        assert(batch.take(batch.len() as int) =~= batch);
    }

    /// Empties the log and resets both counters.
    pub fn clear(&mut self)
        ensures
            final(self).wf(),
            final(self).spec_records() == Seq::<CommunicationRecord>::empty(),
            final(self).spec_evicted() == 0,
            final(self).spec_queue_dropped() == 0,
    {
        self.records.clear();
        self.payload_bytes = 0;
        self.evicted_records = 0;
        self.queue_dropped_records = 0;
    }

    /// Tab-separated export of all records, each shown in its effective
    /// display format.
    pub fn export(&self, format: PayloadFormat) -> (s: String)
        ensures
            s@ == export_header() + export_lines(self.spec_records(), format),
    {
        let mut output = String::new();
        push_str(&mut output, "时间\t方向\t端点\t字节数\t内容\n");
        let mut i: usize = 0;
        let ghost recs = self.records@;
        while i < self.records.len()
            invariant
                recs == self.records@,
                i <= recs.len(),
                output@ == export_header() + export_lines(recs.take(i as int), format),
            decreases recs.len() - i,
        {
            let ghost before = output@;
            push_export_line(&mut output, &self.records[i], format);
            proof {
                assert(recs.take(i + 1).drop_last() =~= recs.take(i as int));
                assert(output@ =~= before + export_line(recs[i as int], format));
            }
            i = i + 1;
        }
        assert(recs.take(i as int) =~= recs);
        output
    }
}

impl Default for CommunicationLog {
    fn default() -> (log: Self)
        ensures
            log.wf(),
            log.spec_records() == Seq::<CommunicationRecord>::empty(),
            log.spec_evicted() == 0,
            log.spec_queue_dropped() == 0,
    {
        CommunicationLog::new()
    }
}

} // verus!

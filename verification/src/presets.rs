//! Tool presets that hold no sensitive value, how they are named and
//! summarised on the settings page, and the fixed presets of the review page.
use vstd::prelude::*;

use crate::text::{decimal, owned, push_decimal, push_str};

verus! {

/// The tool a preset applies to.
#[derive(Clone, Copy, Debug, PartialEq, Eq, Structural)]
pub enum SafePresetTool {
    Ping,
    TcpProbe,
    Mtr,
    TcpDebug,
    UdpDebug,
    SerialDebug,
}

/// The address family a preset asks for.
#[derive(Clone, Copy, Debug, PartialEq, Eq, Structural)]
pub enum SafePresetFamily {
    Auto,
    V4,
    V6,
}

impl SafePresetFamily {
    pub open spec fn spec_label(self) -> Seq<char> {
        match self {
            SafePresetFamily::Auto => "自动"@,
            SafePresetFamily::V4 => "IPv4"@,
            SafePresetFamily::V6 => "IPv6"@,
        }
    }

    pub fn label(self) -> (l: &'static str)
        ensures
            l@ == self.spec_label(),
    {
        match self {
            SafePresetFamily::Auto => "自动",
            SafePresetFamily::V4 => "IPv4",
            SafePresetFamily::V6 => "IPv6",
        }
    }
}

/// How a preset displays payloads.
#[derive(Clone, Copy, Debug, PartialEq, Eq, Structural)]
pub enum SafePresetFormat {
    Text,
    Hex,
}

/// A preset of a tool's parameters; it holds no host, address or payload.
#[derive(Clone, Debug, PartialEq, Eq)]
pub struct SafeToolPreset {
    pub updated_at: Option<String>,
    pub tool: SafePresetTool,
    pub family: SafePresetFamily,
    pub timeout_ms: u32,
    pub interval_ms: u32,
    pub attempts: u32,
    pub display_format: SafePresetFormat,
    pub append_crlf: bool,
    pub serial_baud_rate: u32,
}

/// The name of a preset on the settings page.
pub open spec fn preset_name_of(preset: SafeToolPreset) -> Seq<char> {
    match preset.tool {
        SafePresetTool::Ping => "快速 Ping"@,
        SafePresetTool::TcpProbe => "TCP 重试"@,
        SafePresetTool::Mtr => "MTR 路径诊断"@,
        SafePresetTool::TcpDebug => "TCP 调试参数"@,
        SafePresetTool::UdpDebug => "UDP 调试参数"@,
        SafePresetTool::SerialDebug => "串口 "@ + decimal(preset.serial_baud_rate as nat) + " 8N1"@,
    }
}

/// The one-line summary of a preset on the settings page.
pub open spec fn preset_summary_of(preset: SafeToolPreset) -> Seq<char> {
    if preset.tool == SafePresetTool::SerialDebug {
        "波特率="@ + decimal(preset.serial_baud_rate as nat) + ", 数据位=8, 校验=无, 停止位=1, 流控=无"@
    } else {
        preset.family.spec_label() + ", 超时="@ + decimal(preset.timeout_ms as nat) + "ms, 间隔="@ + decimal(
            preset.interval_ms as nat,
        ) + "ms, 次数="@ + decimal(preset.attempts as nat)
    }
}

/// The name of a preset on the settings page.
pub fn preset_display_name(preset: &SafeToolPreset) -> (name: String)
    ensures
        name@ == preset_name_of(*preset),
{
    match preset.tool {
        SafePresetTool::Ping => owned("快速 Ping"),
        SafePresetTool::TcpProbe => owned("TCP 重试"),
        SafePresetTool::Mtr => owned("MTR 路径诊断"),
        SafePresetTool::TcpDebug => owned("TCP 调试参数"),
        SafePresetTool::UdpDebug => owned("UDP 调试参数"),
        SafePresetTool::SerialDebug => {
            let mut name = owned("串口 ");
            push_decimal(&mut name, preset.serial_baud_rate as u64);
            push_str(&mut name, " 8N1");
            name
        },
    }
}

/// The one-line summary of a preset: the serial line settings for a serial
/// preset, else the family, timeout, interval and number of attempts.
pub fn preset_summary(preset: &SafeToolPreset) -> (summary: String)
    ensures
        summary@ == preset_summary_of(*preset),
{
    let mut summary = String::new();
    if preset.tool == SafePresetTool::SerialDebug {
        push_str(&mut summary, "波特率=");
        push_decimal(&mut summary, preset.serial_baud_rate as u64);
        push_str(&mut summary, ", 数据位=8, 校验=无, 停止位=1, 流控=无");
        return summary;
    }
    push_str(&mut summary, preset.family.label());
    push_str(&mut summary, ", 超时=");
    push_decimal(&mut summary, preset.timeout_ms as u64);
    push_str(&mut summary, "ms, 间隔=");
    push_decimal(&mut summary, preset.interval_ms as u64);
    push_str(&mut summary, "ms, 次数=");
    push_decimal(&mut summary, preset.attempts as u64);
    summary
}

/// A review preset updated at `updated_at`.
fn review_preset(
    updated_at: &str,
    tool: SafePresetTool,
    family: SafePresetFamily,
    timeout_ms: u32,
    attempts: u32,
) -> (p: SafeToolPreset)
    ensures
        p.updated_at matches Some(u) && u@ == updated_at@,
        p.tool == tool,
        p.family == family,
        p.timeout_ms == timeout_ms,
        p.interval_ms == 1000,
        p.attempts == attempts,
        p.display_format == SafePresetFormat::Text,
        !p.append_crlf,
        p.serial_baud_rate == 115200,
{
    SafeToolPreset {
        updated_at: Some(owned(updated_at)),
        tool,
        family,
        timeout_ms,
        interval_ms: 1000,
        attempts,
        display_format: SafePresetFormat::Text,
        append_crlf: false,
        serial_baud_rate: 115200,
    }
}

/// The fixed presets of the review page; they are never written to the
/// user's settings.
pub fn settings_review_presets() -> (presets: Vec<SafeToolPreset>)
    ensures
        presets@.len() == 3,
        presets@[0].tool == SafePresetTool::Ping,
        presets@[0].updated_at matches Some(u) && u@ == "2025-05-20 14:32:18"@,
        presets@[0].family == SafePresetFamily::V4,
        presets@[0].timeout_ms == 1000,
        presets@[0].attempts == 4,
        presets@[1].tool == SafePresetTool::TcpProbe,
        presets@[1].updated_at matches Some(u) && u@ == "2025-05-19 17:58:44"@,
        presets@[1].family == SafePresetFamily::V4,
        presets@[1].timeout_ms == 3000,
        presets@[1].attempts == 3,
        presets@[2].tool == SafePresetTool::SerialDebug,
        presets@[2].updated_at matches Some(u) && u@ == "2025-05-20 13:47:02"@,
        presets@[2].family == SafePresetFamily::Auto,
        presets@[2].timeout_ms == 1000,
        presets@[2].attempts == 1,
        forall|i: int|
            0 <= i < 3 ==> {
                &&& (#[trigger] presets@[i]).interval_ms == 1000
                &&& presets@[i].display_format == SafePresetFormat::Text
                &&& !presets@[i].append_crlf
                &&& presets@[i].serial_baud_rate == 115200
            },
{
    vec![
        review_preset("2025-05-20 14:32:18", SafePresetTool::Ping, SafePresetFamily::V4, 1000, 4),
        review_preset("2025-05-19 17:58:44", SafePresetTool::TcpProbe, SafePresetFamily::V4, 3000, 3),
        review_preset("2025-05-20 13:47:02", SafePresetTool::SerialDebug, SafePresetFamily::Auto, 1000, 1),
    ]
}

/// The time stamp shown on the settings page: the first 19 characters of the
/// local date and time, down to the second (`YYYY-MM-DD HH:MM:SS`).
pub fn settings_timestamp(local_date_time: &str) -> (stamp: String)
    ensures
        stamp@ == local_date_time@.take(if local_date_time@.len() < 19 {
            local_date_time@.len() as int
        } else {
            19
        }),
{
    let chars = crate::text::chars_of(local_date_time);
    let end: usize = if chars.len() < 19 {
        chars.len()
    } else {
        19
    };
    crate::text::string_of(&chars, 0, end)
}

} // verus!

//! Domain model of TCP handshake probes.
use vstd::prelude::*;

use crate::model::error::AppError;
use crate::model::ping::PingAddressFamily;
use crate::text::{outcome_is, owned};

verus! {

/// Settings of a TCP probe.
#[derive(Clone, Debug, PartialEq, Eq)]
pub struct TcpProbeConfig {
    pub family: PingAddressFamily,
    pub timeout_ms: u32,
    pub attempts: u32,
    pub interval_ms: u32,
}

impl Default for TcpProbeConfig {
    fn default() -> (c: Self)
        ensures
            c == (TcpProbeConfig {
                family: PingAddressFamily::Auto,
                timeout_ms: 3000,
                attempts: 3,
                interval_ms: 1000,
            }),
    {
        TcpProbeConfig { family: PingAddressFamily::Auto, timeout_ms: 3000, attempts: 3, interval_ms: 1000 }
    }
}

/// The first problem of a probe configuration, if any.
pub open spec fn tcp_probe_problem(c: TcpProbeConfig) -> Option<Seq<char>> {
    if !(100 <= c.timeout_ms <= 30000) {
        Some("TCP 超时必须在 100–30000 ms 之间。"@)
    } else if !(1 <= c.attempts <= 100) {
        Some("尝试次数必须在 1–100 之间。"@)
    } else if !(100 <= c.interval_ms <= 60000) {
        Some("尝试间隔必须在 100–60000 ms 之间。"@)
    } else {
        None
    }
}

impl TcpProbeConfig {
    /// Checks the settings and reports the first problem.
    pub fn validate(&self) -> (r: Result<(), String>)
        ensures
            outcome_is(r, tcp_probe_problem(*self)),
    {
        if !(100 <= self.timeout_ms && self.timeout_ms <= 30000) {
            return Err(owned("TCP 超时必须在 100–30000 ms 之间。"));
        }
        if !(1 <= self.attempts && self.attempts <= 100) {
            return Err(owned("尝试次数必须在 1–100 之间。"));
        }
        if !(100 <= self.interval_ms && self.interval_ms <= 60000) {
            return Err(owned("尝试间隔必须在 100–60000 ms 之间。"));
        }
        Ok(())
    }
}

/// How one connection attempt of a probe ended.
#[derive(Clone, Copy, Debug, PartialEq, Eq, Structural)]
pub enum ConnectOutcome {
    Connected,
    Refused,
    TimedOut,
    /// Any other failure.
    Unreachable,
}

/// The status text of an attempt.
pub fn attempt_status(outcome: ConnectOutcome) -> (s: &'static str)
    ensures
        s@ == match outcome {
            ConnectOutcome::Connected => "成功"@,
            ConnectOutcome::Refused => "拒绝"@,
            ConnectOutcome::TimedOut => "超时"@,
            ConnectOutcome::Unreachable => "不可达"@,
        },
{
    match outcome {
        ConnectOutcome::Connected => "成功",
        ConnectOutcome::Refused => "拒绝",
        ConnectOutcome::TimedOut => "超时",
        ConnectOutcome::Unreachable => "不可达",
    }
}

/// A probe needs a port; port 0 is refused before any name is resolved.
pub fn check_probe_port(port: u16) -> (r: Result<(), AppError>)
    ensures
        port > 0 <==> r is Ok,
        r is Err ==> (r matches Err(AppError::InvalidInput(m)) && m@ == "端口必须大于 0。"@),
{
    if port == 0 {
        Err(AppError::InvalidInput(owned("端口必须大于 0。")))
    } else {
        Ok(())
    }
}

/// The time all attempts of one probe share: the requested time-out kept
/// within 100–30000 ms.
pub fn probe_window_ms(timeout_ms: u32) -> (window: u32)
    ensures
        window == (if timeout_ms < 100 {
            100
        } else if timeout_ms > 30000 {
            30000
        } else {
            timeout_ms
        }),
{
    if timeout_ms < 100 {
        100
    } else if timeout_ms > 30000 {
        30000
    } else {
        timeout_ms
    }
}

} // verus!

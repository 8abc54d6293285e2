//! Domain model of ICMP echo probes.
use vstd::prelude::*;

use crate::text::{outcome_is, owned};

verus! {

/// Address family a probe is restricted to.
#[derive(Clone, Copy, Debug, Default, PartialEq, Eq, Structural)]
pub enum PingAddressFamily {
    #[default]
    Auto,
    V4,
    V6,
}

impl PingAddressFamily {
    pub open spec fn spec_label(self) -> Seq<char> {
        match self {
            PingAddressFamily::Auto => "自动"@,
            PingAddressFamily::V4 => "IPv4"@,
            PingAddressFamily::V6 => "IPv6"@,
        }
    }

    pub fn label(self) -> (l: &'static str)
        ensures
            l@ == self.spec_label(),
    {
        match self {
            PingAddressFamily::Auto => "自动",
            PingAddressFamily::V4 => "IPv4",
            PingAddressFamily::V6 => "IPv6",
        }
    }
}

/// Settings of a ping task; continuous mode ends on cancellation, finite
/// mode sends `count` echoes.
#[derive(Clone, Debug, PartialEq, Eq)]
pub struct PingConfig {
    pub family: PingAddressFamily,
    pub count: u32,
    pub timeout_ms: u32,
    pub payload_size: u16,
    pub interval_ms: u32,
    pub continuous: bool,
}

impl Default for PingConfig {
    fn default() -> (c: Self)
        ensures
            c == (PingConfig {
                family: PingAddressFamily::Auto,
                count: 4,
                timeout_ms: 1000,
                payload_size: 32,
                interval_ms: 1000,
                continuous: false,
            }),
    {
        PingConfig {
            family: PingAddressFamily::Auto,
            count: 4,
            timeout_ms: 1000,
            payload_size: 32,
            interval_ms: 1000,
            continuous: false,
        }
    }
}

/// The first problem of a ping configuration, if any.
pub open spec fn ping_problem(c: PingConfig) -> Option<Seq<char>> {
    if !(1 <= c.count <= 100) {
        Some("有限模式次数必须在 1–100 之间。"@)
    } else if !(100 <= c.timeout_ms <= 10000) {
        Some("单次超时必须在 100–10000 ms 之间。"@)
    } else if c.payload_size > 1472 {
        Some("ICMP 载荷必须在 0–1472 字节之间。"@)
    } else if !(100 <= c.interval_ms <= 60000) {
        Some("探测间隔必须在 100–60000 ms 之间。"@)
    } else {
        None
    }
}

impl PingConfig {
    /// Checks the settings and reports the first problem.
    pub fn validate(&self) -> (r: Result<(), String>)
        ensures
            outcome_is(r, ping_problem(*self)),
    {
        if !(1 <= self.count && self.count <= 100) {
            return Err(owned("有限模式次数必须在 1–100 之间。"));
        }
        if !(100 <= self.timeout_ms && self.timeout_ms <= 10000) {
            return Err(owned("单次超时必须在 100–10000 ms 之间。"));
        }
        if self.payload_size > 1472 {
            return Err(owned("ICMP 载荷必须在 0–1472 字节之间。"));
        }
        if !(100 <= self.interval_ms && self.interval_ms <= 60000) {
            return Err(owned("探测间隔必须在 100–60000 ms 之间。"));
        }
        Ok(())
    }
}

/// Number of echo requests of one finite run: the requested count, which
/// the settings accept within 1–100, brought into that range when it lies
/// outside.
pub fn ping_count(count: u32) -> (n: u32)
    ensures
        n == (if count < 1 {
            1
        } else if count > 100 {
            100
        } else {
            count
        }),
{
    if count < 1 {
        1
    } else if count > 100 {
        100
    } else {
        count
    }
}

/// Time-out of one echo request: the requested one kept within 100–10000 ms.
pub fn ping_timeout_ms(timeout_ms: u32) -> (t: u32)
    ensures
        t == (if timeout_ms < 100 {
            100
        } else if timeout_ms > 10000 {
            10000
        } else {
            timeout_ms
        }),
{
    if timeout_ms < 100 {
        100
    } else if timeout_ms > 10000 {
        10000
    } else {
        timeout_ms
    }
}

/// Size of the echo payload: at most 1472 bytes.
pub fn ping_payload_size(payload_size: u16) -> (s: u16)
    ensures
        s == (if payload_size > 1472 {
            1472
        } else {
            payload_size
        }),
{
    if payload_size > 1472 {
        1472
    } else {
        payload_size
    }
}

} // verus!

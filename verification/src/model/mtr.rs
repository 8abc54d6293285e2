//! Settings of MTR path diagnostics and their bounds.
use vstd::prelude::*;

use crate::model::ping::PingAddressFamily;
use crate::text::{outcome_is, owned};

verus! {

/// Advanced MTR settings; `total_rounds == None` runs until stopped.
#[derive(Clone, Debug, PartialEq, Eq)]
pub struct MtrConfig {
    pub max_hops: u8,
    pub probes_per_hop: u8,
    pub timeout_ms: u32,
    pub interval_ms: u32,
    pub payload_size: u16,
    pub total_rounds: Option<u32>,
    pub concurrency: u8,
    pub resolve_hostnames: bool,
    pub family: PingAddressFamily,
}

impl Default for MtrConfig {
    fn default() -> (c: Self)
        ensures
            c == (MtrConfig {
                max_hops: 30,
                probes_per_hop: 3,
                timeout_ms: 1000,
                interval_ms: 1000,
                payload_size: 32,
                total_rounds: None,
                concurrency: 1,
                resolve_hostnames: false,
                family: PingAddressFamily::Auto,
            }),
    {
        MtrConfig {
            max_hops: 30,
            probes_per_hop: 3,
            timeout_ms: 1000,
            interval_ms: 1000,
            payload_size: 32,
            total_rounds: None,
            concurrency: 1,
            resolve_hostnames: false,
            family: PingAddressFamily::Auto,
        }
    }
}

/// The first problem of an MTR configuration, if any.
pub open spec fn mtr_problem(c: MtrConfig) -> Option<Seq<char>> {
    if !(1 <= c.max_hops <= 64) {
        Some("最大跳数必须在 1 到 64 之间。"@)
    } else if !(1 <= c.probes_per_hop <= 10) {
        Some("每跳探测次数必须在 1 到 10 之间。"@)
    } else if !(100 <= c.timeout_ms <= 5000) {
        Some("单次超时必须在 100 到 5000 毫秒之间。"@)
    } else if !(200 <= c.interval_ms <= 5000) {
        Some("探测间隔必须在 200 到 5000 毫秒之间。"@)
    } else if c.payload_size > 1472 {
        Some("ICMP 载荷必须在 0 到 1472 字节之间。"@)
    } else if c.total_rounds matches Some(rounds) && !(1 <= rounds <= 100) {
        Some("总轮数必须在 1 到 100 之间。"@)
    } else if !(1 <= c.concurrency <= 4) {
        Some("最大并发探测数必须在 1 到 4 之间。"@)
    } else {
        None
    }
}

impl MtrConfig {
    /// Checks the settings and reports the first actionable problem.
    pub fn validate(&self) -> (r: Result<(), String>)
        ensures
            outcome_is(r, mtr_problem(*self)),
    {
        if !(1 <= self.max_hops && self.max_hops <= 64) {
            return Err(owned("最大跳数必须在 1 到 64 之间。"));
        }
        if !(1 <= self.probes_per_hop && self.probes_per_hop <= 10) {
            return Err(owned("每跳探测次数必须在 1 到 10 之间。"));
        }
        if !(100 <= self.timeout_ms && self.timeout_ms <= 5000) {
            return Err(owned("单次超时必须在 100 到 5000 毫秒之间。"));
        }
        if !(200 <= self.interval_ms && self.interval_ms <= 5000) {
            return Err(owned("探测间隔必须在 200 到 5000 毫秒之间。"));
        }
        if self.payload_size > 1472 {
            return Err(owned("ICMP 载荷必须在 0 到 1472 字节之间。"));
        }
        if let Some(rounds) = self.total_rounds {
            if !(1 <= rounds && rounds <= 100) {
                return Err(owned("总轮数必须在 1 到 100 之间。"));
            }
        }
        if !(1 <= self.concurrency && self.concurrency <= 4) {
            return Err(owned("最大并发探测数必须在 1 到 4 之间。"));
        }
        Ok(())
    }
}

/// What is known of one hop of a path trace apart from its latencies: the
/// address that last answered, its host name once resolved, the probes sent
/// and answered, and the latest status text.
#[derive(Clone, Debug, PartialEq, Eq)]
pub struct MtrHopTrace {
    pub hop: u8,
    pub address: Option<String>,
    pub hostname: Option<String>,
    pub sent: u32,
    pub received: u32,
    pub status: String,
}

impl MtrHopTrace {
    /// Every answered probe was sent.
    pub open spec fn wf(&self) -> bool {
        self.received <= self.sent
    }

    /// A hop that has not been probed yet.
    pub fn new(hop: u8) -> (t: Self)
        ensures
            t.wf(),
            t.hop == hop,
            t.address is None,
            t.hostname is None,
            t.sent == 0,
            t.received == 0,
            t.status@ == "等待探测"@,
    {
        MtrHopTrace {
            hop,
            address: None,
            hostname: None,
            sent: 0,
            received: 0,
            status: crate::text::owned("等待探测"),
        }
    }

    /// Takes note of one probe: it was sent, answered when `replied`; an
    /// answer from a new address replaces the address and drops the host name
    /// resolved for the old one.
    pub fn record(&mut self, address: Option<String>, replied: bool, status: &str)
        requires
            old(self).wf(),
            old(self).sent < u32::MAX,
        ensures
            final(self).wf(),
            final(self).hop == old(self).hop,
            final(self).sent == old(self).sent + 1,
            final(self).received == old(self).received + (if replied {
                1int
            } else {
                0int
            }),
            final(self).status@ == status@,
            match address {
                None => final(self).address == old(self).address && final(self).hostname == old(self).hostname,
                Some(a) => {
                    &&& final(self).address == Some(a)
                    &&& final(self).hostname == (if old(self).address matches Some(b) && b@ == a@ {
                        old(self).hostname
                    } else {
                        None
                    })
                },
            },
    {
        self.sent = self.sent + 1;
        self.status = crate::text::owned(status);
        if let Some(address) = address {
            let same = match &self.address {
                Some(current) => crate::text::str_equal(current.as_str(), address.as_str()),
                None => false,
            };
            if !same {
                self.hostname = None;
            }
            self.address = Some(address);
        }
        if replied {
            self.received = self.received + 1;
        }
    }
}

} // verus!

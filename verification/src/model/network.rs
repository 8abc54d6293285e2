//! Domain model of the network endpoint table.
use vstd::prelude::*;

use crate::text::{decimal, push_decimal, push_str};

verus! {

/// Transport protocol of an endpoint.
#[derive(Clone, Copy, Debug, PartialEq, Eq, Structural)]
pub enum NetworkProtocol {
    Tcp,
    Udp,
}

impl NetworkProtocol {
    pub fn label(self) -> (l: &'static str)
        ensures
            l@ == match self {
                NetworkProtocol::Tcp => "TCP"@,
                NetworkProtocol::Udp => "UDP"@,
            },
    {
        match self {
            NetworkProtocol::Tcp => "TCP",
            NetworkProtocol::Udp => "UDP",
        }
    }
}

/// IP version of an endpoint.
#[derive(Clone, Copy, Debug, PartialEq, Eq, Structural)]
pub enum IpVersion {
    V4,
    V6,
}

impl IpVersion {
    pub fn label(self) -> (l: &'static str)
        ensures
            l@ == match self {
                IpVersion::V4 => "IPv4"@,
                IpVersion::V6 => "IPv6"@,
            },
    {
        match self {
            IpVersion::V4 => "IPv4",
            IpVersion::V6 => "IPv6",
        }
    }
}

/// State of a TCP connection; UDP has none.
#[derive(Clone, Copy, Debug, PartialEq, Eq, Structural)]
pub enum TcpState {
    Listen,
    Established,
    SynSent,
    SynReceived,
    FinWait1,
    FinWait2,
    CloseWait,
    Closing,
    LastAck,
    TimeWait,
    Closed,
    DeleteTcb,
    Unknown,
}

impl TcpState {
    pub open spec fn spec_label(self) -> Seq<char> {
        match self {
            TcpState::Listen => "LISTENING"@,
            TcpState::Established => "ESTABLISHED"@,
            TcpState::SynSent => "SYN_SENT"@,
            TcpState::SynReceived => "SYN_RECEIVED"@,
            TcpState::FinWait1 => "FIN_WAIT_1"@,
            TcpState::FinWait2 => "FIN_WAIT_2"@,
            TcpState::CloseWait => "CLOSE_WAIT"@,
            TcpState::Closing => "CLOSING"@,
            TcpState::LastAck => "LAST_ACK"@,
            TcpState::TimeWait => "TIME_WAIT"@,
            TcpState::Closed => "CLOSED"@,
            TcpState::DeleteTcb => "DELETE_TCB"@,
            TcpState::Unknown => "UNKNOWN"@,
        }
    }

    /// The state as `netstat` names it.
    pub fn label(self) -> (l: &'static str)
        ensures
            l@ == self.spec_label(),
    {
        match self {
            TcpState::Listen => "LISTENING",
            TcpState::Established => "ESTABLISHED",
            TcpState::SynSent => "SYN_SENT",
            TcpState::SynReceived => "SYN_RECEIVED",
            TcpState::FinWait1 => "FIN_WAIT_1",
            TcpState::FinWait2 => "FIN_WAIT_2",
            TcpState::CloseWait => "CLOSE_WAIT",
            TcpState::Closing => "CLOSING",
            TcpState::LastAck => "LAST_ACK",
            TcpState::TimeWait => "TIME_WAIT",
            TcpState::Closed => "CLOSED",
            TcpState::DeleteTcb => "DELETE_TCB",
            TcpState::Unknown => "UNKNOWN",
        }
    }
}

/// One endpoint of the system's TCP/UDP tables, already formatted.
#[derive(Clone, Debug, PartialEq, Eq)]
pub struct NetworkEndpoint {
    pub protocol: NetworkProtocol,
    pub ip_version: IpVersion,
    /// Local address without the port.
    pub local_address: String,
    pub local_port: u16,
    /// Remote address; empty for listening sockets.
    pub remote_address: String,
    /// Remote port; absent for UDP and listening sockets.
    pub remote_port: Option<u16>,
    /// TCP state; absent for UDP.
    pub state: Option<TcpState>,
    pub pid: u32,
    /// Executable name from the process snapshot; empty once it exited.
    pub process_name: String,
}

/// `address:port`, with an IPv6 address in brackets.
pub open spec fn endpoint_text(version: IpVersion, address: Seq<char>, port: u16) -> Seq<char> {
    match version {
        IpVersion::V4 => address + ":"@ + decimal(port as nat),
        IpVersion::V6 => "["@ + address + "]:"@ + decimal(port as nat),
    }
}

/// Formats an endpoint as `address:port`, bracketing IPv6 addresses.
pub fn format_endpoint(version: IpVersion, address: &str, port: u16) -> (s: String)
    ensures
        s@ == endpoint_text(version, address@, port),
{
    let mut out = String::new();
    match version {
        IpVersion::V4 => {
            push_str(&mut out, address);
            push_str(&mut out, ":");
        },
        IpVersion::V6 => {
            push_str(&mut out, "[");
            push_str(&mut out, address);
            push_str(&mut out, "]:");
        },
    }
    push_decimal(&mut out, port as u64);
    assert(out@ =~= endpoint_text(version, address@, port));
    out
}

impl NetworkEndpoint {
    /// The local endpoint.
    pub fn local_display(&self) -> (s: String)
        ensures
            s@ == endpoint_text(self.ip_version, self.local_address@, self.local_port),
    {
        format_endpoint(self.ip_version, self.local_address.as_str(), self.local_port)
    }

    /// The remote endpoint, or `-` when there is no remote port.
    pub fn remote_display(&self) -> (s: String)
        ensures
            s@ == match self.remote_port {
                Some(port) => endpoint_text(self.ip_version, self.remote_address@, port),
                None => "-"@,
            },
    {
        match self.remote_port {
            Some(port) => format_endpoint(self.ip_version, self.remote_address.as_str(), port),
            None => "-".to_owned(),
        }
    }
}

/// A port number stored in network byte order in the low 16 bits of a
/// table field (`u16::from_be` of its truncation).
pub open spec fn port_from_network_order(network_order: u32) -> u16 {
    let low = network_order % 65536;
    ((low % 256) * 256 + low / 256) as u16
}

/// Decodes a port from its network byte order table field.
pub fn decode_port(network_order: u32) -> (p: u16)
    ensures
        p == port_from_network_order(network_order),
{
    let low = network_order % 65536;
    ((low % 256) * 256 + low / 256) as u16
}

/// The TCP state a `MIB_TCP_STATE` value denotes.
pub fn tcp_state(value: u32) -> (s: TcpState)
    ensures
        s == match value {
            1 => TcpState::Closed,
            2 => TcpState::Listen,
            3 => TcpState::SynSent,
            4 => TcpState::SynReceived,
            5 => TcpState::Established,
            6 => TcpState::FinWait1,
            7 => TcpState::FinWait2,
            8 => TcpState::CloseWait,
            9 => TcpState::Closing,
            10 => TcpState::LastAck,
            11 => TcpState::TimeWait,
            12 => TcpState::DeleteTcb,
            _ => TcpState::Unknown,
        },
{
    match value {
        1 => TcpState::Closed,
        2 => TcpState::Listen,
        3 => TcpState::SynSent,
        4 => TcpState::SynReceived,
        5 => TcpState::Established,
        6 => TcpState::FinWait1,
        7 => TcpState::FinWait2,
        8 => TcpState::CloseWait,
        9 => TcpState::Closing,
        10 => TcpState::LastAck,
        11 => TcpState::TimeWait,
        12 => TcpState::DeleteTcb,
        _ => TcpState::Unknown,
    }
}

/// The dotted-quad text of an IPv4 address stored in network byte order in a
/// table field read on a little-endian machine.
pub open spec fn ipv4_text_of(network_order: u32) -> Seq<char> {
    decimal((network_order % 256) as nat) + "."@ + decimal(((network_order / 256) % 256) as nat) + "."@
        + decimal(((network_order / 65536) % 256) as nat) + "."@ + decimal((network_order / 16777216) as nat)
}

/// The dotted-quad text of an IPv4 address table field.
pub fn ipv4_from_network_order(network_order: u32) -> (s: String)
    ensures
        s@ == ipv4_text_of(network_order),
{
    let mut s = String::new();
    push_decimal(&mut s, (network_order % 256) as u64);
    push_str(&mut s, ".");
    push_decimal(&mut s, ((network_order / 256) % 256) as u64);
    push_str(&mut s, ".");
    push_decimal(&mut s, ((network_order / 65536) % 256) as u64);
    push_str(&mut s, ".");
    push_decimal(&mut s, (network_order / 16777216) as u64);
    s
}

/// The rank of a protocol in the table: TCP before UDP, as their labels sort.
pub open spec fn protocol_rank(p: NetworkProtocol) -> int {
    match p {
        NetworkProtocol::Tcp => 0,
        NetworkProtocol::Udp => 1,
    }
}

/// Table order of endpoints: by local port, then protocol, then PID.
pub open spec fn endpoint_le(a: NetworkEndpoint, b: NetworkEndpoint) -> bool {
    ||| a.local_port < b.local_port
    ||| (a.local_port == b.local_port && protocol_rank(a.protocol) < protocol_rank(b.protocol))
    ||| (a.local_port == b.local_port && protocol_rank(a.protocol) == protocol_rank(b.protocol) && a.pid <= b.pid)
}

fn endpoint_le_exec(a: &NetworkEndpoint, b: &NetworkEndpoint) -> (r: bool)
    ensures
        r == endpoint_le(*a, *b),
{
    let ra: u8 = match a.protocol {
        NetworkProtocol::Tcp => 0,
        NetworkProtocol::Udp => 1,
    };
    let rb: u8 = match b.protocol {
        NetworkProtocol::Tcp => 0,
        NetworkProtocol::Udp => 1,
    };
    a.local_port < b.local_port || (a.local_port == b.local_port && ra < rb) || (a.local_port == b.local_port
        && ra == rb && a.pid <= b.pid)
}

/// The endpoints of all tables in table order.
pub fn sort_endpoints(endpoints: Vec<NetworkEndpoint>) -> (sorted: Vec<NetworkEndpoint>)
    ensures
        sorted@.to_multiset() == endpoints@.to_multiset(),
        forall|a: int, b: int| 0 <= a < b < sorted@.len() ==> endpoint_le(#[trigger] sorted@[a], #[trigger] sorted@[b]),
{
    let ghost all = endpoints@;
    let mut rest = endpoints;
    let mut out: Vec<NetworkEndpoint> = Vec::new();
    let ghost mut i: int = 0;
    assert(out@.to_multiset() =~= all.take(0).to_multiset()) by {
        assert(all.take(0) =~= Seq::<NetworkEndpoint>::empty());
        assert(out@ =~= Seq::<NetworkEndpoint>::empty());
    }
    while rest.len() > 0
        invariant
            0 <= i <= all.len(),
            rest@ == all.skip(i),
            out@.to_multiset() == all.take(i).to_multiset(),
            forall|a: int, b: int| 0 <= a < b < out@.len() ==> endpoint_le(#[trigger] out@[a], #[trigger] out@[b]),
        decreases rest.len(),
    {
        let x = rest.remove(0);
        proof {
            assert(x == all[i]);
            assert(rest@ =~= all.skip(i + 1));
            assert(all.take(i + 1) =~= all.take(i).push(x));
        }
        let mut k: usize = 0;
        while k < out.len() && endpoint_le_exec(&out[k], &x)
            invariant
                k <= out@.len(),
                forall|j: int| 0 <= j < k ==> endpoint_le(#[trigger] out@[j], x),
            decreases out.len() - k,
        {
            k = k + 1;
        }
        let ghost before = out@;
        out.insert(k, x);
        proof {
            vstd::seq_lib::to_multiset_build(all.take(i), x);
            vstd::seq_lib::to_multiset_insert(before, k as int, x);
            assert forall|a: int, b: int| 0 <= a < b < out@.len() implies endpoint_le(#[trigger] out@[a], #[trigger] out@[b]) by {
                if a < k && b == k {
                } else if a == k && b > k {
                    assert(!endpoint_le(before[k as int], x));
                    assert(endpoint_le(before[k as int], before[b - 1]));
                } else if a < k && b > k {
                    assert(endpoint_le(before[a], before[b - 1]));
                } else if a > k {
                    assert(endpoint_le(before[a - 1], before[b - 1]));
                } else {
                }
            }
            i = i + 1;
        }
    }
    assert(all.take(i) =~= all);
    out
}

} // verus!

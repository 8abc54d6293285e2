//! Choosing among the addresses that name resolution gave for a host: those
//! of a session's address family, and the order in which a connection probe
//! tries them.
use vstd::prelude::*;

use crate::model::communication::CommunicationIpFamily;
use crate::text::{owned, str_equal};

verus! {

/// One address that name resolution gave for a host and port.
#[derive(Clone, Debug, PartialEq, Eq)]
pub struct ResolvedAddress {
    pub is_ipv6: bool,
    pub address: String,
}

/// `family` admits an address of that kind.
pub open spec fn family_admits(family: CommunicationIpFamily, is_ipv6: bool) -> bool {
    match family {
        CommunicationIpFamily::V4 => !is_ipv6,
        CommunicationIpFamily::V6 => is_ipv6,
    }
}

/// The addresses of `s` that `family` admits, in their order.
pub open spec fn of_family(s: Seq<ResolvedAddress>, family: CommunicationIpFamily) -> Seq<ResolvedAddress>
    decreases s.len(),
{
    if s.len() == 0 {
        Seq::empty()
    } else if family_admits(family, s.last().is_ipv6) {
        of_family(s.drop_last(), family).push(s.last())
    } else {
        of_family(s.drop_last(), family)
    }
}

/// The reason given when no resolved address has the session's family.
pub open spec fn no_family_address() -> Seq<char> {
    "没有匹配地址族的地址"@
}

/// The addresses a session may use: those of the resolved ones, in order,
/// that have the session's address family; an error when there is none.
pub fn addresses_of_family(candidates: Vec<ResolvedAddress>, family: CommunicationIpFamily) -> (r: Result<
    Vec<ResolvedAddress>,
    String,
>)
    ensures
        r is Err <==> of_family(candidates@, family).len() == 0,
        r matches Err(m) ==> m@ == no_family_address(),
        r matches Ok(v) ==> v@ == of_family(candidates@, family),
{
    let kept = collect_family(&candidates, family);
    if kept.len() == 0 {
        Err(owned("没有匹配地址族的地址"))
    } else {
        Ok(kept)
    }
}

/// A copy of `a`.
fn copy_address(a: &ResolvedAddress) -> (r: ResolvedAddress)
    ensures
        r == *a,
{
    ResolvedAddress { is_ipv6: a.is_ipv6, address: a.address.clone() }
}

/// Copies of the addresses of `candidates` that `family` admits, in order.
fn collect_family(candidates: &Vec<ResolvedAddress>, family: CommunicationIpFamily) -> (kept: Vec<
    ResolvedAddress,
>)
    ensures
        kept@ == of_family(candidates@, family),
{
    let mut kept: Vec<ResolvedAddress> = Vec::new();
    let mut i: usize = 0;
    while i < candidates.len()
        invariant
            i <= candidates.len(),
            kept@ == of_family(candidates@.take(i as int), family),
        decreases candidates.len() - i,
    {
        proof {
            assert(candidates@.take(i + 1).drop_last() =~= candidates@.take(i as int));
        }
        let admitted = match family {
            CommunicationIpFamily::V4 => !candidates[i].is_ipv6,
            CommunicationIpFamily::V6 => candidates[i].is_ipv6,
        };
        if admitted {
            kept.push(copy_address(&candidates[i]));
        }
        i = i + 1;
    }
    proof {
        assert(candidates@.take(candidates@.len() as int) =~= candidates@);
    }
    kept
}

/// The two entries name one address.
pub open spec fn same_address(a: ResolvedAddress, b: ResolvedAddress) -> bool {
    a.is_ipv6 == b.is_ipv6 && a.address@ == b.address@
}

/// `s` with every entry dropped that names the same address as the entry
/// just before it.
pub open spec fn without_repeats(s: Seq<ResolvedAddress>) -> Seq<ResolvedAddress>
    decreases s.len(),
{
    if s.len() <= 1 {
        s
    } else if same_address(s[s.len() - 2], s.last()) {
        without_repeats(s.drop_last())
    } else {
        without_repeats(s.drop_last()).push(s.last())
    }
}

/// The order in which a connection probe tries the resolved addresses: the
/// IPv4 ones, then the IPv6 ones, each group in the order resolution gave
/// them, with an address dropped where it repeats the one just before it.
pub open spec fn probe_sequence(s: Seq<ResolvedAddress>) -> Seq<ResolvedAddress> {
    without_repeats(of_family(s, CommunicationIpFamily::V4) + of_family(s, CommunicationIpFamily::V6))
}

/// The addresses a connection probe tries, in the order it tries them.
pub fn probe_order(candidates: Vec<ResolvedAddress>) -> (order: Vec<ResolvedAddress>)
    ensures
        order@ == probe_sequence(candidates@),
{
    let mut all = collect_family(&candidates, CommunicationIpFamily::V4);
    let mut ipv6 = collect_family(&candidates, CommunicationIpFamily::V6);
    all.append(&mut ipv6);
    let ghost joined = all@;
    let mut order: Vec<ResolvedAddress> = Vec::new();
    let mut i: usize = 0;
    while i < all.len()
        invariant
            all@ == joined,
            i <= all.len(),
            order@ == without_repeats(joined.take(i as int)),
        decreases all.len() - i,
    {
        proof {
            assert(joined.take(i + 1).drop_last() =~= joined.take(i as int));
        }
        let repeats = i > 0 && all[i - 1].is_ipv6 == all[i].is_ipv6 && str_equal(
            all[i - 1].address.as_str(),
            all[i].address.as_str(),
        );
        if !repeats {
            order.push(copy_address(&all[i]));
        }
        i = i + 1;
    }
    proof {
        assert(joined.take(joined.len() as int) =~= joined);
    }
    order
}

} // verus!

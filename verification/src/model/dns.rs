//! Domain model of DNS lookups.
use vstd::prelude::*;

use crate::model::error::AppError;
use crate::text::{decimal, is_blank, owned, push_decimal, push_str, trim, trimmed};

verus! {

/// Record type of a DNS query; `Auto` picks `PTR` for an address and
/// `A` plus `AAAA` for a name.
#[derive(Clone, Copy, Debug, Default, PartialEq, Eq, Structural)]
pub enum DnsRecordType {
    #[default]
    Auto,
    A,
    Aaaa,
    Cname,
    Mx,
    Txt,
    Ns,
    Ptr,
}

impl DnsRecordType {
    pub open spec fn spec_label(self) -> Seq<char> {
        match self {
            DnsRecordType::Auto => "自动"@,
            DnsRecordType::A => "A"@,
            DnsRecordType::Aaaa => "AAAA"@,
            DnsRecordType::Cname => "CNAME"@,
            DnsRecordType::Mx => "MX"@,
            DnsRecordType::Txt => "TXT"@,
            DnsRecordType::Ns => "NS"@,
            DnsRecordType::Ptr => "PTR"@,
        }
    }

    /// The name of the record type shown in the interface.
    pub fn label(self) -> (l: &'static str)
        ensures
            l@ == self.spec_label(),
    {
        match self {
            DnsRecordType::Auto => "自动",
            DnsRecordType::A => "A",
            DnsRecordType::Aaaa => "AAAA",
            DnsRecordType::Cname => "CNAME",
            DnsRecordType::Mx => "MX",
            DnsRecordType::Txt => "TXT",
            DnsRecordType::Ns => "NS",
            DnsRecordType::Ptr => "PTR",
        }
    }
}

impl DnsRecordType {
    /// The record type number of the DNS wire format (RFC 1035, RFC 3596)
    /// that a query for this type asks the resolver for; `Auto` asks for `A`.
    pub open spec fn spec_wire_code(self) -> u16 {
        match self {
            DnsRecordType::Auto | DnsRecordType::A => 1,
            DnsRecordType::Ns => 2,
            DnsRecordType::Cname => 5,
            DnsRecordType::Ptr => 12,
            DnsRecordType::Mx => 15,
            DnsRecordType::Txt => 16,
            DnsRecordType::Aaaa => 28,
        }
    }

    /// The record type number sent to the resolver.
    pub fn wire_code(self) -> (code: u16)
        ensures
            code == self.spec_wire_code(),
    {
        match self {
            DnsRecordType::Auto | DnsRecordType::A => 1,
            DnsRecordType::Ns => 2,
            DnsRecordType::Cname => 5,
            DnsRecordType::Ptr => 12,
            DnsRecordType::Mx => 15,
            DnsRecordType::Txt => 16,
            DnsRecordType::Aaaa => 28,
        }
    }
}

/// One answer record.
#[derive(Clone, Debug, PartialEq, Eq)]
pub struct DnsRecord {
    pub name: String,
    pub record_type: DnsRecordType,
    pub value: String,
    pub ttl: u32,
}

/// All answers for one host.
#[derive(Clone, Debug, PartialEq, Eq)]
pub struct DnsResult {
    pub host: String,
    pub records: Vec<DnsRecord>,
}

/// The record types one lookup asks for: for `Auto`, `PTR` for an address
/// literal and `A` then `AAAA` for a name; otherwise the chosen type.
pub open spec fn queried_types(record_type: DnsRecordType, is_address: bool) -> Seq<DnsRecordType> {
    if record_type == DnsRecordType::Auto {
        if is_address {
            seq![DnsRecordType::Ptr]
        } else {
            seq![DnsRecordType::A, DnsRecordType::Aaaa]
        }
    } else {
        seq![record_type]
    }
}

/// A lookup of a chosen record type asks for exactly that type, whatever the
/// host is; only `Auto` asks for more than one type or for a type other than
/// the one named: `PTR` for an address, `A` then `AAAA` for a name.
pub proof fn lemma_chosen_type_is_queried_alone(record_type: DnsRecordType, is_address: bool)
    ensures
        record_type != DnsRecordType::Auto ==> queried_types(record_type, is_address) == seq![record_type],
        record_type == DnsRecordType::Auto && is_address ==> queried_types(record_type, is_address) == seq![
            DnsRecordType::Ptr,
        ],
        record_type == DnsRecordType::Auto && !is_address ==> queried_types(record_type, is_address) == seq![
            DnsRecordType::A,
            DnsRecordType::Aaaa,
        ],
{
}

/// The host a lookup asks for, trimmed, and the record types it queries in
/// order; an empty host is refused. `is_address` tells whether the trimmed
/// host is an IP address literal.
pub fn plan_dns_query(host: &str, record_type: DnsRecordType, is_address: bool) -> (r: Result<
    (String, Vec<DnsRecordType>),
    AppError,
>)
    ensures
        trim(host@).len() == 0 <==> r is Err,
        r is Err ==> (r matches Err(AppError::InvalidInput(m)) && m@ == "主机名不能为空。"@),
        r matches Ok(plan) ==> plan.0@ == trim(host@) && plan.1@ == queried_types(record_type, is_address),
{
    if is_blank(host) {
        return Err(AppError::InvalidInput(owned("主机名不能为空。")));
    }
    let name = trimmed(host);
    let types = if record_type == DnsRecordType::Auto {
        if is_address {
            vec![DnsRecordType::Ptr]
        } else {
            vec![DnsRecordType::A, DnsRecordType::Aaaa]
        }
    } else {
        vec![record_type]
    };
    assert(types@ =~= queried_types(record_type, is_address));
    Ok((name, types))
}

/// `DNS_ERROR_RCODE_NAME_ERROR`: the name does not exist.
pub const DNS_ERROR_RCODE_NAME_ERROR: u32 = 9003;

/// `DNS_ERROR_RCODE_NXRRSET`: the name has no record of the type.
pub const DNS_ERROR_RCODE_NXRRSET: u32 = 9008;

/// `ERROR_TIMEOUT`.
pub const ERROR_TIMEOUT: u32 = 1460;

/// The error of a failed query of `record_type` records of `host` with the
/// system status `code`.
pub fn dns_query_error(code: u32, host: &str, record_type: DnsRecordType) -> (e: AppError)
    ensures
        code == DNS_ERROR_RCODE_NAME_ERROR ==> (e matches AppError::NameResolution(m) && m@ == "NXDOMAIN：找不到主机 "@
            + host@ + "。"@),
        code == DNS_ERROR_RCODE_NXRRSET ==> (e matches AppError::NameResolution(m) && m@ == "主机存在，但没有 "@
            + record_type.spec_label() + " 记录。"@),
        code == ERROR_TIMEOUT ==> (e matches AppError::Timeout(m) && m@ == "系统 DNS 查询超时。"@),
        code != DNS_ERROR_RCODE_NAME_ERROR && code != DNS_ERROR_RCODE_NXRRSET && code != ERROR_TIMEOUT ==> (
        e matches AppError::NameResolution(m) && m@ == "查询 "@ + record_type.spec_label() + " 记录失败，Windows DNS 错误码 "@
            + decimal(code as nat) + "。"@),
{
    let mut message = String::new();
    if code == DNS_ERROR_RCODE_NAME_ERROR {
        push_str(&mut message, "NXDOMAIN：找不到主机 ");
        push_str(&mut message, host);
        push_str(&mut message, "。");
        AppError::NameResolution(message)
    } else if code == DNS_ERROR_RCODE_NXRRSET {
        push_str(&mut message, "主机存在，但没有 ");
        push_str(&mut message, record_type.label());
        push_str(&mut message, " 记录。");
        AppError::NameResolution(message)
    } else if code == ERROR_TIMEOUT {
        AppError::Timeout(owned("系统 DNS 查询超时。"))
    } else {
        push_str(&mut message, "查询 ");
        push_str(&mut message, record_type.label());
        push_str(&mut message, " 记录失败，Windows DNS 错误码 ");
        push_decimal(&mut message, code as u64);
        push_str(&mut message, "。");
        AppError::NameResolution(message)
    }
}

/// The value shown for an MX record: the exchange and its preference.
pub fn mx_value(exchange: &str, preference: u16) -> (v: String)
    ensures
        v@ == exchange@ + " (优先级 "@ + decimal(preference as nat) + ")"@,
{
    let mut v = owned(exchange);
    push_str(&mut v, " (优先级 ");
    push_decimal(&mut v, preference as u64);
    push_str(&mut v, ")");
    v
}

/// The strings of a TXT record joined by single spaces.
pub open spec fn joined_with_spaces(parts: Seq<Seq<char>>) -> Seq<char>
    decreases parts.len(),
{
    if parts.len() == 0 {
        Seq::empty()
    } else if parts.len() == 1 {
        parts[0]
    } else {
        joined_with_spaces(parts.drop_last()) + " "@ + parts.last()
    }
}

/// The value shown for a TXT record: its strings joined by spaces.
pub fn txt_value(parts: &Vec<String>) -> (v: String)
    ensures
        v@ == joined_with_spaces(parts@.map_values(|p: String| p@)),
{
    let ghost views = parts@.map_values(|p: String| p@);
    let mut v = String::new();
    let mut i: usize = 0;
    while i < parts.len()
        invariant
            i <= parts@.len(),
            views == parts@.map_values(|p: String| p@),
            v@ == joined_with_spaces(views.take(i as int)),
        decreases parts.len() - i,
    {
        proof {
            assert(views.take(i + 1).drop_last() =~= views.take(i as int));
            assert(views.take(i + 1).last() == parts@[i as int]@);
        }
        if i > 0 {
            push_str(&mut v, " ");
        } else {
            assert(views.take(0) =~= Seq::<Seq<char>>::empty());
        }
        push_str(&mut v, parts[i].as_str());
        i = i + 1;
    }
    assert(views.take(i as int) =~= views);
    v
}

} // verus!

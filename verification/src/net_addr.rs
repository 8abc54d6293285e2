//! Textual IPv4 addresses as `Ipv4Addr::from_str` reads them: four decimal
//! octets separated by dots, each of one to three digits, without a leading
//! zero, at most 255.
use vstd::prelude::*;

use crate::text::{chars_of, is_ascii_digit};

verus! {

/// Splits `s` at every `sep`; always at least one part.
pub open spec fn split_char(s: Seq<char>, sep: char) -> Seq<Seq<char>>
    decreases s.len(),
{
    if s.len() == 0 {
        seq![Seq::<char>::empty()]
    } else {
        let rest = split_char(s.drop_last(), sep);
        if s.last() == sep {
            rest.push(Seq::<char>::empty())
        } else {
            rest.update(rest.len() - 1, rest.last().push(s.last()))
        }
    }
}

/// Value of a run of ASCII decimal digits.
pub open spec fn digits_value(p: Seq<char>) -> nat
    decreases p.len(),
{
    if p.len() == 0 {
        0
    } else {
        digits_value(p.drop_last()) * 10 + ((p.last() as u32 - '0' as u32) as nat)
    }
}

/// All characters are ASCII decimal digits.
pub open spec fn all_digits(p: Seq<char>) -> bool {
    forall|k: int| 0 <= k < p.len() ==> is_ascii_digit(#[trigger] p[k])
}

/// The value of one dotted-quad octet, if it is well formed.
pub open spec fn octet_value(p: Seq<char>) -> Option<u8> {
    if 1 <= p.len() <= 3 && all_digits(p) && !(p.len() > 1 && p[0] == '0') && digits_value(p)
        <= 255 {
        Some(digits_value(p) as u8)
    } else {
        None
    }
}

/// The four octets of a textual IPv4 address, if it is one.
pub open spec fn ipv4_octets(s: Seq<char>) -> Option<Seq<u8>> {
    let parts = split_char(s, '.');
    if parts.len() == 4 && (forall|i: int| 0 <= i < 4 ==> #[trigger] octet_value(parts[i]) is Some) {
        Some(Seq::new(4, |i: int| octet_value(parts[i])->0))
    } else {
        None
    }
}

proof fn lemma_split_len_pos(s: Seq<char>, sep: char)
    ensures
        split_char(s, sep).len() >= 1,
    decreases s.len(),
{
    if s.len() > 0 {
        lemma_split_len_pos(s.drop_last(), sep);
    }
}

/// Splits `chars` at every `sep`, exactly as `split_char`.
fn split_parts(chars: &Vec<char>, sep: char) -> (parts: Vec<Vec<char>>)
    ensures
        parts@.len() == split_char(chars@, sep).len(),
        forall|i: int| 0 <= i < parts@.len() ==> #[trigger] parts@[i]@ == split_char(chars@, sep)[i],
{
    let mut parts: Vec<Vec<char>> = Vec::new();
    let mut current: Vec<char> = Vec::new();
    let mut i: usize = 0;
    assert(chars@.take(0) =~= Seq::<char>::empty());
    while i < chars.len()
        invariant
            i <= chars@.len(),
            parts@.len() + 1 == split_char(chars@.take(i as int), sep).len(),
            forall|k: int| 0 <= k < parts@.len() ==> #[trigger] parts@[k]@ == split_char(chars@.take(i as int), sep)[k],
            current@ == split_char(chars@.take(i as int), sep).last(),
        decreases chars.len() - i,
    {
        let c = chars[i];
        proof {
            assert(chars@.take(i + 1).drop_last() =~= chars@.take(i as int));
            assert(chars@.take(i + 1).last() == c);
            lemma_split_len_pos(chars@.take(i as int), sep);
        }
        if c == sep {
            let done = current;
            parts.push(done);
            current = Vec::new();
        } else {
            current.push(c);
        }
        i = i + 1;
    }
    assert(chars@.take(i as int) =~= chars@);
    parts.push(current);
    parts
}

/// The value of one dotted-quad octet, exactly `octet_value`.
fn parse_octet(p: &Vec<char>) -> (r: Option<u8>)
    ensures
        r == octet_value(p@),
{
    let n = p.len();
    if n < 1 || n > 3 {
        return None;
    }
    if n > 1 && p[0] == '0' {
        return None;
    }
    let mut value: u32 = 0;
    let mut i: usize = 0;
    while i < n
        invariant
            1 <= n <= 3,
            n == p@.len(),
            i <= n,
            all_digits(p@.take(i as int)),
            value == digits_value(p@.take(i as int)),
            value < 1000,
        decreases n - i,
    {
        let c = p[i];
        if !('0' <= c && c <= '9') {
            proof {
                assert(!is_ascii_digit(p@[i as int]));
            }
            return None;
        }
        proof {
            assert(p@.take(i + 1).drop_last() =~= p@.take(i as int));
            assert(p@.take(i + 1).last() == c);
        }
        assert(value * 10 <= 9990) by (nonlinear_arith)
            requires
                value < 1000,
        ;
        value = value * 10 + (c as u32 - '0' as u32);
        proof {
            assert(all_digits(p@.take(i + 1)));
            assert(value <= 999) by {
                assert(i + 1 <= 3);
                lemma_digits_bound(p@.take(i + 1));
            }
        }
        i = i + 1;
    }
    assert(p@.take(n as int) =~= p@);
    if value > 255 {
        None
    } else {
        Some(value as u8)
    }
}

proof fn lemma_digits_bound(p: Seq<char>)
    requires
        all_digits(p),
        p.len() <= 3,
    ensures
        digits_value(p) <= 999,
        p.len() <= 2 ==> digits_value(p) <= 99,
        p.len() <= 1 ==> digits_value(p) <= 9,
    decreases p.len(),
{
    if p.len() > 0 {
        assert(all_digits(p.drop_last())) by {
            assert forall|k: int| 0 <= k < p.drop_last().len() implies is_ascii_digit(
                #[trigger] p.drop_last()[k],
            ) by {
                assert(p.drop_last()[k] == p[k]);
            }
        }
        lemma_digits_bound(p.drop_last());
        assert(is_ascii_digit(p[p.len() - 1]));
    }
}

/// Parses a textual IPv4 address into its four octets.
pub fn parse_ipv4(s: &str) -> (r: Option<Vec<u8>>)
    ensures
        match ipv4_octets(s@) {
            None => r is None,
            Some(o) => r matches Some(v) && v@ == o,
        },
{
    let chars = chars_of(s);
    let parts = split_parts(&chars, '.');
    if parts.len() != 4 {
        return None;
    }
    let mut octets: Vec<u8> = Vec::new();
    let mut i: usize = 0;
    while i < 4
        invariant
            parts@.len() == 4,
            parts@.len() == split_char(s@, '.').len(),
            forall|k: int| 0 <= k < 4 ==> #[trigger] parts@[k]@ == split_char(s@, '.')[k],
            i <= 4,
            octets@.len() == i,
            forall|k: int| 0 <= k < i ==> #[trigger] octet_value(split_char(s@, '.')[k]) == Some(
                octets@[k],
            ),
        decreases 4 - i,
    {
        match parse_octet(&parts[i]) {
            None => {
                assert(octet_value(split_char(s@, '.')[i as int]) is None);
                return None;
            },
            Some(o) => {
                octets.push(o);
            },
        }
        i = i + 1;
    }
    assert(ipv4_octets(s@) is Some);
    assert(octets@ =~= ipv4_octets(s@)->0);
    Some(octets)
}

} // verus!

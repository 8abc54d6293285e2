//! UTF-16 buffers of the system calls: encoding text for them, and recovering
//! text from the buffers they fill.
use vstd::prelude::*;

use crate::text::chars_of;

verus! {

/// `unit` is a UTF-16 leading surrogate.
pub open spec fn is_lead_surrogate(unit: u16) -> bool {
    0xD800 <= unit <= 0xDBFF
}

/// `unit` is a UTF-16 trailing surrogate.
pub open spec fn is_trail_surrogate(unit: u16) -> bool {
    0xDC00 <= unit <= 0xDFFF
}

/// UTF-16 decoding that replaces each unpaired surrogate with U+FFFD: a unit
/// outside the surrogate range is its own character, a leading surrogate
/// followed by a trailing one combines with it, and any other surrogate
/// becomes U+FFFD, decoding going on with the next unit.
pub open spec fn utf16_lossy(units: Seq<u16>) -> Seq<char>
    decreases units.len(),
{
    if units.len() == 0 {
        Seq::empty()
    } else if !is_lead_surrogate(units[0]) && !is_trail_surrogate(units[0]) {
        seq![units[0] as char] + utf16_lossy(units.drop_first())
    } else if is_lead_surrogate(units[0]) && units.len() > 1 && is_trail_surrogate(units[1]) {
        seq![(0x10000 + (units[0] - 0xD800) * 0x400 + (units[1] - 0xDC00)) as char] + utf16_lossy(
            units.skip(2),
        )
    } else {
        seq!['\u{FFFD}'] + utf16_lossy(units.drop_first())
    }
}

/// `String::from_utf16_lossy`: decodes UTF-16, replacing each unpaired
/// surrogate with U+FFFD, as its documentation says; claimed to give
/// `utf16_lossy` of the units.
#[verifier::external_body]
fn decode_utf16_lossy(units: &[u16]) -> (s: String)
    ensures
        s@ == utf16_lossy(units@),
{
    String::from_utf16_lossy(units)
}

/// The length of the text in `value`: up to its first NUL unit, or all of it.
pub open spec fn wide_length(value: Seq<u16>) -> int {
    if exists|i: int| 0 <= i < value.len() && value[i] == 0u16 {
        choose|i: int| 0 <= i < value.len() && value[i] == 0u16 && forall|j: int| 0 <= j < i ==> value[j] != 0u16
    } else {
        value.len() as int
    }
}

/// The string held by a fixed-size or NUL-terminated UTF-16 buffer: the units
/// before the first NUL, decoded.
pub fn from_wide(value: &[u16]) -> (s: String)
    ensures
        s@ == utf16_lossy(value@.take(wide_length(value@))),
{
    let mut length: usize = 0;
    while length < value.len()
        invariant
            length <= value@.len(),
            forall|j: int| 0 <= j < length ==> value@[j] != 0u16,
        ensures
            length <= value@.len(),
            forall|j: int| 0 <= j < length ==> value@[j] != 0u16,
            length < value@.len() ==> value@[length as int] == 0u16,
        decreases value.len() - length,
    {
        if value[length] == 0 {
            break;
        }
        length = length + 1;
    }
    proof {
        if length < value@.len() {
            assert(value@[length as int] == 0u16);
            let c = choose|i: int| 0 <= i < value@.len() && value@[i] == 0u16 && forall|j: int| 0 <= j < i ==> value@[j] != 0u16;
            if c < length {
            } else if c > length {
            }
        }
    }
    let text = slice_prefix(value, length);
    decode_utf16_lossy(text)
}

/// The first `length` units of `value`.
fn slice_prefix(value: &[u16], length: usize) -> (r: &[u16])
    requires
        length <= value@.len(),
    ensures
        r@ == value@.take(length as int),
{
    let (head, _) = value.split_at(length);
    head
}

/// The UTF-16 code units of `c`: one unit below U+10000, otherwise a
/// leading and a trailing surrogate.
pub open spec fn utf16_units(c: char) -> Seq<u16> {
    let v = c as u32 as int;
    if v < 0x10000 {
        seq![v as u16]
    } else {
        seq![(0xD800 + (v - 0x10000) / 0x400) as u16, (0xDC00 + (v - 0x10000) % 0x400) as u16]
    }
}

/// The UTF-16 encoding of `s`, character by character.
pub open spec fn utf16_encode(s: Seq<char>) -> Seq<u16>
    decreases s.len(),
{
    if s.len() == 0 {
        Seq::empty()
    } else {
        utf16_units(s[0]) + utf16_encode(s.drop_first())
    }
}

/// `value` as a NUL-terminated UTF-16 buffer for a system call.
pub fn to_wide(value: &str) -> (w: Vec<u16>)
    ensures
        w@ == utf16_encode(value@).push(0u16),
{
    let chars = chars_of(value);
    let mut w: Vec<u16> = Vec::new();
    let mut i: usize = 0;
    assert(chars@.skip(0) =~= chars@);
    assert(w@ + utf16_encode(chars@) =~= utf16_encode(chars@));
    while i < chars.len()
        invariant
            i <= chars@.len(),
            chars@ == value@,
            w@ + utf16_encode(chars@.skip(i as int)) == utf16_encode(chars@),
        decreases chars.len() - i,
    {
        let c = chars[i];
        let v = c as u32;
        proof {
            assert(chars@.skip(i as int).drop_first() =~= chars@.skip(i + 1));
            assert(chars@.skip(i as int)[0] == c);
        }
        let ghost before = w@;
        if v < 0x10000 {
            w.push(v as u16);
            assert(w@ =~= before + utf16_units(c));
        } else {
            let offset = v - 0x10000;
            w.push((0xD800 + offset / 0x400) as u16);
            w.push((0xDC00 + offset % 0x400) as u16);
            assert(w@ =~= before + utf16_units(c));
        }
        assert(before + utf16_encode(chars@.skip(i as int)) =~= before + utf16_units(c) + utf16_encode(
            chars@.skip(i + 1),
        ));
        i = i + 1;
    }
    proof {
        assert(chars@.skip(chars@.len() as int) =~= Seq::<char>::empty());
        assert(w@ + Seq::<u16>::empty() =~= w@);
    }
    w.push(0);
    w
}

/// Decoding the units of one character followed by more units gives that
/// character followed by the decoding of the rest.
proof fn lemma_units_decode(c: char, rest: Seq<u16>)
    ensures
        utf16_lossy(utf16_units(c) + rest) == seq![c] + utf16_lossy(rest),
{
    let v = c as u32 as int;
    let u = utf16_units(c) + rest;
    assert(0 <= v <= 0xD7FF || 0xE000 <= v <= 0x10FFFF);
    if v < 0x10000 {
        assert(u[0] == v as u16);
        assert(u.drop_first() =~= rest);
        assert((v as u16) as char == c);
    } else {
        let q = (v - 0x10000) / 0x400;
        let r = (v - 0x10000) % 0x400;
        assert(0 <= q <= 0x3FF && 0 <= r < 0x400 && 0x10000 + q * 0x400 + r == v) by (nonlinear_arith)
            requires
                0x10000 <= v <= 0x10FFFF,
                q == (v - 0x10000) / 0x400,
                r == (v - 0x10000) % 0x400,
        ;
        assert(u[0] == (0xD800 + q) as u16);
        assert(u[1] == (0xDC00 + r) as u16);
        assert(u.skip(2) =~= rest);
        assert((0x10000 + (u[0] - 0xD800) * 0x400 + (u[1] - 0xDC00)) as char == c);
    }
}

/// No unit of the encoding of a text without NUL is zero.
proof fn lemma_encode_has_no_nul(s: Seq<char>)
    requires
        forall|i: int| 0 <= i < s.len() ==> s[i] != '\0',
    ensures
        forall|i: int| 0 <= i < utf16_encode(s).len() ==> utf16_encode(s)[i] != 0u16,
    decreases s.len(),
{
    if s.len() > 0 {
        let t = s.drop_first();
        assert forall|i: int| 0 <= i < t.len() implies t[i] != '\0' by {
            assert(t[i] == s[i + 1]);
        }
        lemma_encode_has_no_nul(t);
        let u = utf16_units(s[0]);
        let e = utf16_encode(s);
        assert(e == u + utf16_encode(t));
        assert(s[0] != '\0');
        assert((s[0] as u32) != 0) by {
            vstd::utf8::char_u32_cast(s[0], s[0] as u32);
            vstd::utf8::char_u32_cast('\0', '\0' as u32);
            assert(('\0' as u32) == 0);
        }
        assert forall|i: int| 0 <= i < u.len() implies u[i] != 0u16 by {
            let v = s[0] as u32 as int;
            vstd::utf8::char_is_scalar(s[0]);
            if v < 0x10000 {
                assert(u[0] == v as u16);
                assert((v as u16) as int == v);
            } else {
                let q = (v - 0x10000) / 0x400;
                let r = (v - 0x10000) % 0x400;
                assert(0 <= q <= 0x3FF && 0 <= r < 0x400) by (nonlinear_arith)
                    requires
                        0x10000 <= v <= 0x10FFFF,
                        q == (v - 0x10000) / 0x400,
                        r == (v - 0x10000) % 0x400,
                ;
                assert(((0xD800 + q) as u16) as int == 0xD800 + q);
                assert(((0xDC00 + r) as u16) as int == 0xDC00 + r);
            }
        }
        assert forall|i: int| 0 <= i < e.len() implies e[i] != 0u16 by {
            if i < u.len() {
                assert(e[i] == u[i]);
            } else {
                assert(e[i] == utf16_encode(t)[i - u.len()]);
            }
        }
    }
}

/// Decoding the encoding of `s` gives `s`.
pub proof fn lemma_utf16_round_trip(s: Seq<char>)
    ensures
        utf16_lossy(utf16_encode(s)) == s,
    decreases s.len(),
{
    if s.len() == 0 {
    } else {
        lemma_utf16_round_trip(s.drop_first());
        lemma_units_decode(s[0], utf16_encode(s.drop_first()));
        assert(seq![s[0]] + s.drop_first() =~= s);
    }
}

/// A text without NUL survives the trip to a NUL-terminated UTF-16 buffer
/// and back: the buffer's text ends at the added NUL and decodes to `s`.
pub proof fn lemma_wide_round_trip(s: Seq<char>)
    requires
        forall|i: int| 0 <= i < s.len() ==> s[i] != '\0',
    ensures
        utf16_lossy(utf16_encode(s).push(0u16).take(wide_length(utf16_encode(s).push(0u16)))) == s,
{
    let e = utf16_encode(s);
    let w = e.push(0u16);
    lemma_encode_has_no_nul(s);
    lemma_utf16_round_trip(s);
    assert(w[e.len() as int] == 0u16);
    let c = choose|i: int| 0 <= i < w.len() && w[i] == 0u16 && forall|j: int| 0 <= j < i ==> w[j] != 0u16;
    assert(c == e.len()) by {
        if c < e.len() {
            assert(w[c] == e[c]);
        }
    }
    assert(w.take(e.len() as int) =~= e);
}

/// `units` is well-formed UTF-16: every surrogate is part of a leading and
/// trailing pair.
pub open spec fn well_formed_utf16(units: Seq<u16>) -> bool
    decreases units.len(),
{
    if units.len() == 0 {
        true
    } else if !is_lead_surrogate(units[0]) && !is_trail_surrogate(units[0]) {
        well_formed_utf16(units.drop_first())
    } else if is_lead_surrogate(units[0]) && units.len() > 1 && is_trail_surrogate(units[1]) {
        well_formed_utf16(units.skip(2))
    } else {
        false
    }
}

/// Encoding again the decoding of well-formed UTF-16 gives the same units.
pub proof fn lemma_utf16_reencode(units: Seq<u16>)
    requires
        well_formed_utf16(units),
    ensures
        utf16_encode(utf16_lossy(units)) == units,
    decreases units.len(),
{
    if units.len() > 0 {
        let x = units[0] as int;
        if !is_lead_surrogate(units[0]) && !is_trail_surrogate(units[0]) {
            let c = x as char;
            lemma_utf16_reencode(units.drop_first());
            assert((c as u32) as int == x);
            assert(utf16_units(c) =~= seq![units[0]]);
            assert(utf16_lossy(units) == seq![c] + utf16_lossy(units.drop_first()));
            assert(utf16_encode(seq![c] + utf16_lossy(units.drop_first())) == utf16_units(c)
                + utf16_encode(utf16_lossy(units.drop_first()))) by {
                assert((seq![c] + utf16_lossy(units.drop_first())).drop_first() =~= utf16_lossy(
                    units.drop_first(),
                ));
            }
            assert(seq![units[0]] + units.drop_first() =~= units);
        } else {
            let y = units[1] as int;
            let n = 0x10000 + (x - 0xD800) * 0x400 + (y - 0xDC00);
            let c = n as char;
            lemma_utf16_reencode(units.skip(2));
            assert(0x10000 <= n <= 0x10FFFF && (n - 0x10000) / 0x400 == x - 0xD800 && (n - 0x10000) % 0x400
                == y - 0xDC00) by (nonlinear_arith)
                requires
                    0xD800 <= x <= 0xDBFF,
                    0xDC00 <= y <= 0xDFFF,
                    n == 0x10000 + (x - 0xD800) * 0x400 + (y - 0xDC00),
            ;
            assert((c as u32) as int == n);
            assert(utf16_units(c) =~= seq![units[0], units[1]]);
            assert(utf16_lossy(units) == seq![c] + utf16_lossy(units.skip(2)));
            assert(utf16_encode(seq![c] + utf16_lossy(units.skip(2))) == utf16_units(c) + utf16_encode(
                utf16_lossy(units.skip(2)),
            )) by {
                assert((seq![c] + utf16_lossy(units.skip(2))).drop_first() =~= utf16_lossy(units.skip(2)));
            }
            assert(seq![units[0], units[1]] + units.skip(2) =~= units);
        }
    }
}

} // verus!

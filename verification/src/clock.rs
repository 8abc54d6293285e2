//! Clock times as the records of a session show them: `HH:MM:SS`, or
//! `HH:MM:SS.mmm` with milliseconds, each field padded with zeros.
use vstd::prelude::*;

use crate::text::{chars_of, decimal, decimal_string, push_char, push_str};

verus! {

/// `n` in decimal, padded with leading zeros to at least `width` digits.
pub open spec fn zero_padded(n: nat, width: nat) -> Seq<char> {
    if decimal(n).len() < width {
        Seq::new((width - decimal(n).len()) as nat, |i: int| '0') + decimal(n)
    } else {
        decimal(n)
    }
}

/// The text of a time of day in hours, minutes and seconds.
pub open spec fn hms_text(hour: nat, minute: nat, second: nat) -> Seq<char> {
    zero_padded(hour, 2) + ":"@ + zero_padded(minute, 2) + ":"@ + zero_padded(second, 2)
}

/// The text of a time of day with milliseconds.
pub open spec fn hms_millis_text(hour: nat, minute: nat, second: nat, millis: nat) -> Seq<char> {
    hms_text(hour, minute, second) + "."@ + zero_padded(millis, 3)
}

/// Appends `n` padded with zeros to at least `width` digits.
fn push_padded(out: &mut String, n: u64, width: usize)
    ensures
        final(out)@ == old(out)@ + zero_padded(n as nat, width as nat),
{
    let digits = decimal_string(n);
    let len = chars_of(digits.as_str()).len();
    if len < width {
        let mut i: usize = 0;
        while i < width - len
            invariant
                len < width,
                i <= width - len,
                out@ == old(out)@ + Seq::new(i as nat, |k: int| '0'),
            decreases width - len - i,
        {
            push_char(out, '0');
            i = i + 1;
            assert(out@ =~= old(out)@ + Seq::new(i as nat, |k: int| '0'));
        }
    }
    push_str(out, digits.as_str());
    assert(out@ =~= old(out)@ + zero_padded(n as nat, width as nat));
}

/// `HH:MM:SS` of the given time.
pub fn format_hms(hour: u16, minute: u16, second: u16) -> (s: String)
    ensures
        s@ == hms_text(hour as nat, minute as nat, second as nat),
{
    let mut s = String::new();
    push_padded(&mut s, hour as u64, 2);
    push_str(&mut s, ":");
    push_padded(&mut s, minute as u64, 2);
    push_str(&mut s, ":");
    push_padded(&mut s, second as u64, 2);
    s
}

/// `HH:MM:SS.mmm` of the given time.
pub fn format_hms_millis(hour: u16, minute: u16, second: u16, millis: u16) -> (s: String)
    ensures
        s@ == hms_millis_text(hour as nat, minute as nat, second as nat, millis as nat),
{
    let mut s = format_hms(hour, minute, second);
    push_str(&mut s, ".");
    push_padded(&mut s, millis as u64, 3);
    s
}

/// The hour, minute, second and millisecond of the day at `millis`
/// milliseconds after a midnight.
pub fn time_of_day(millis: u64) -> (t: (u16, u16, u16, u16))
    ensures
        t.0 == (millis % 86_400_000) / 3_600_000,
        t.1 == (millis % 3_600_000) / 60_000,
        t.2 == (millis % 60_000) / 1_000,
        t.3 == millis % 1_000,
{
    let day = millis % 86_400_000;
    let hour = day / 3_600_000;
    let minute = (millis % 3_600_000) / 60_000;
    let second = (millis % 60_000) / 1_000;
    let milli = millis % 1_000;
    (hour as u16, minute as u16, second as u16, milli as u16)
}

} // verus!

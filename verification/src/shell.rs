//! Text of the per-user Explorer context menu entry: the executable quoted
//! by the Windows command line rules, and the command that opens the file
//! lock tool on the clicked file.
use vstd::prelude::*;

use crate::text::{chars_of, push_char, push_str};

verus! {

/// `n` backslashes.
pub open spec fn backslashes(n: nat) -> Seq<char> {
    Seq::new(n, |i: int| '\\')
}

/// Number of backslashes `s` starts with.
pub open spec fn leading_backslashes(s: Seq<char>) -> nat
    decreases s.len(),
{
    if s.len() > 0 && s[0] == '\\' {
        1 + leading_backslashes(s.drop_first())
    } else {
        0
    }
}

/// The text of `s` between the opening and the closing quote: each run of
/// backslashes followed by a quote is doubled and the quote escaped, a run
/// before any other character is kept, and the final run is doubled so that
/// it does not escape the closing quote, which ends the text.
pub open spec fn quote_body(s: Seq<char>) -> Seq<char>
    decreases s.len(),
{
    let k = leading_backslashes(s);
    if k >= s.len() {
        backslashes(2 * k) + seq!['"']
    } else if s[k as int] == '"' {
        backslashes(2 * k + 1) + seq!['"'] + quote_body(s.skip(k as int + 1))
    } else {
        backslashes(k) + seq![s[k as int]] + quote_body(s.skip(k as int + 1))
    }
}

/// `s` in double quotes such that `CommandLineToArgvW` reads it back as one
/// argument.
pub open spec fn quoted_argument(s: Seq<char>) -> Seq<char> {
    seq!['"'] + quote_body(s)
}

/// How the Windows command line rules read the text that follows an opening
/// quote, up to the quote that closes it: `2n` backslashes before a quote
/// give `n` backslashes and the quote closes; `2n + 1` backslashes before a
/// quote give `n` backslashes and a literal quote; backslashes before any
/// other character are literal.
pub open spec fn parse_quoted(t: Seq<char>) -> Seq<char>
    decreases t.len(),
{
    let k = leading_backslashes(t);
    if k >= t.len() {
        backslashes(k)
    } else if t[k as int] == '"' {
        if k % 2 == 0 {
            backslashes(k / 2)
        } else {
            backslashes(k / 2) + seq!['"'] + parse_quoted(t.skip(k as int + 1))
        }
    } else {
        backslashes(k) + seq![t[k as int]] + parse_quoted(t.skip(k as int + 1))
    }
}

/// How many characters of the text that follows an opening quote the
/// Windows command line rules read as part of the quoted argument, through
/// its closing quote; one more than the length when no quote closes it.
pub open spec fn quoted_extent(t: Seq<char>) -> int
    decreases t.len(),
{
    let k = leading_backslashes(t);
    if k >= t.len() {
        t.len() + 1int
    } else if t[k as int] == '"' && k % 2 == 0 {
        k + 1int
    } else {
        k + 1int + quoted_extent(t.skip(k as int + 1))
    }
}

/// How the Windows command line rules read one argument that starts with a
/// quote.
pub open spec fn parse_argument(q: Seq<char>) -> Seq<char> {
    parse_quoted(q.drop_first())
}

/// Backslashes before `t` add to the backslashes `t` starts with.
proof fn lemma_leading_backslashes_prefix(n: nat, t: Seq<char>)
    ensures
        leading_backslashes(backslashes(n) + t) == n + leading_backslashes(t),
        (backslashes(n) + t).skip(n as int) == t,
    decreases n,
{
    assert((backslashes(n) + t).skip(n as int) =~= t);
    if n > 0 {
        let u = backslashes(n) + t;
        assert(u.drop_first() =~= backslashes((n - 1) as nat) + t);
        lemma_leading_backslashes_prefix((n - 1) as nat, t);
    }
}

/// The first `leading_backslashes(s)` characters of `s` are backslashes, and
/// the one after them, if any, is not.
proof fn lemma_leading_backslashes_take(s: Seq<char>)
    ensures
        leading_backslashes(s) <= s.len(),
        s.take(leading_backslashes(s) as int) == backslashes(leading_backslashes(s)),
        leading_backslashes(s) < s.len() ==> s[leading_backslashes(s) as int] != '\\',
    decreases s.len(),
{
    if s.len() > 0 && s[0] == '\\' {
        lemma_leading_backslashes_take(s.drop_first());
        let k = leading_backslashes(s);
        assert(s.take(k as int) =~= backslashes(k)) by {
            assert forall|i: int| 0 <= i < k implies s.take(k as int)[i] == '\\' by {
                if i > 0 {
                    assert(s.drop_first().take((k - 1) as int)[i - 1] == '\\');
                }
            }
        }
        if k < s.len() {
            assert(s[k as int] == s.drop_first()[k - 1]);
        }
    } else {
        assert(s.take(0) =~= backslashes(0));
    }
}

/// No backslash starts a text that is empty or starts with another character.
proof fn lemma_no_leading_backslash(c: char, t: Seq<char>)
    requires
        c != '\\',
    ensures
        leading_backslashes(seq![c] + t) == 0,
{
    assert((seq![c] + t)[0] == c);
}

/// Reading back the quoted text of `s` gives `s`: whatever `s` holds, the
/// executable path survives the round trip through the command line.
/// The quoted text starts and ends with a quote, and the quote that closes
/// the argument is its last character, so the whole text is exactly one
/// argument.
pub proof fn lemma_quote_round_trip(s: Seq<char>)
    ensures
        parse_argument(quoted_argument(s)) == s,
        quoted_argument(s).len() >= 2,
        quoted_argument(s)[0] == '"',
        quoted_argument(s).last() == '"',
        quoted_extent(quoted_argument(s).drop_first()) == quoted_argument(s).len() - 1,
    decreases s.len(),
{
    assert(quoted_argument(s).drop_first() =~= quote_body(s));
    lemma_quote_body_round_trip(s);
    assert(quoted_argument(s).last() == quote_body(s).last());
}

proof fn lemma_quote_body_round_trip(s: Seq<char>)
    ensures
        parse_quoted(quote_body(s)) == s,
        quote_body(s).len() >= 1,
        quote_body(s).last() == '"',
        quoted_extent(quote_body(s)) == quote_body(s).len(),
    decreases s.len(),
{
    let k = leading_backslashes(s);
    lemma_leading_backslashes_take(s);
    if k >= s.len() {
        let t = backslashes(2 * k) + seq!['"'];
        lemma_leading_backslashes_prefix(2 * k, seq!['"']);
        lemma_no_leading_backslash('"', Seq::empty());
        assert(seq!['"'] + Seq::<char>::empty() =~= seq!['"']);
        assert(t[2 * k as int] == '"');
        assert(s =~= s.take(k as int));
        assert((2 * k) / 2 == k);
    } else if s[k as int] == '"' {
        let rest = s.skip(k as int + 1);
        let tail = seq!['"'] + quote_body(rest);
        let t = backslashes(2 * k + 1) + tail;
        assert(t =~= backslashes(2 * k + 1) + seq!['"'] + quote_body(rest));
        lemma_leading_backslashes_prefix(2 * k + 1, tail);
        lemma_no_leading_backslash('"', quote_body(rest));
        assert(t[2 * k as int + 1] == '"');
        assert(t.skip(2 * k as int + 2) =~= quote_body(rest));
        assert((2 * k + 1) / 2 == k);
        lemma_quote_body_round_trip(rest);
        assert(s =~= s.take(k as int) + seq!['"'] + rest);
    } else {
        let c = s[k as int];
        let rest = s.skip(k as int + 1);
        let tail = seq![c] + quote_body(rest);
        let t = backslashes(k) + tail;
        assert(t =~= backslashes(k) + seq![c] + quote_body(rest));
        lemma_leading_backslashes_prefix(k, tail);
        lemma_no_leading_backslash(c, quote_body(rest));
        assert(t[k as int] == c);
        assert(t.skip(k as int + 1) =~= quote_body(rest));
        lemma_quote_body_round_trip(rest);
        assert(s =~= s.take(k as int) + seq![c] + rest);
    }
}

/// Appends `n` backslashes.
fn push_backslashes(out: &mut String, n: usize)
    ensures
        final(out)@ == old(out)@ + backslashes(n as nat),
{
    let mut i: usize = 0;
    while i < n
        invariant
            i <= n,
            out@ == old(out)@ + backslashes(i as nat),
        decreases n - i,
    {
        push_char(out, '\\');
        i = i + 1;
        assert(out@ =~= old(out)@ + backslashes(i as nat));
    }
}

/// How the text of a run of `p` backslashes followed by `t` is quoted, by
/// what follows the run.
proof fn lemma_quote_body_after_run(p: nat, t: Seq<char>)
    ensures
        t.len() == 0 ==> quote_body(backslashes(p) + t) == backslashes(2 * p) + seq!['"'],
        t.len() > 0 && t[0] == '"' ==> quote_body(backslashes(p) + t) == backslashes(2 * p + 1) + seq!['"']
            + quote_body(t.drop_first()),
        t.len() > 0 && t[0] != '"' && t[0] != '\\' ==> quote_body(backslashes(p) + t) == backslashes(p)
            + seq![t[0]] + quote_body(t.drop_first()),
{
    let s = backslashes(p) + t;
    lemma_leading_backslashes_prefix(p, t);
    if t.len() > 0 && t[0] != '\\' {
        assert(t =~= seq![t[0]] + t.drop_first());
        lemma_no_leading_backslash(t[0], t.drop_first());
        assert(s[p as int] == t[0]);
        assert(s.skip(p as int + 1) =~= t.drop_first());
    }
}

/// Wraps an executable path in double quotes by the Windows command line
/// escaping rules, so that spaces, non-ASCII text, quotes and a trailing
/// backslash survive.
pub fn quote_windows_argument(argument: &str) -> (q: String)
    requires
        argument@.len() < usize::MAX / 2,
    ensures
        q@ == quoted_argument(argument@),
{
    let chars = chars_of(argument);
    let mut quoted = String::new();
    push_char(&mut quoted, '"');
    let mut pending: usize = 0;
    let mut i: usize = 0;
    assert(quoted@.drop_first() =~= Seq::<char>::empty());
    assert(backslashes(0) + chars@.skip(0) =~= chars@);
    while i < chars.len()
        invariant
            i <= chars@.len(),
            chars@ == argument@,
            chars@.len() < usize::MAX / 2,
            pending <= i,
            quoted@.len() >= 1,
            quoted@[0] == '"',
            quote_body(chars@) == quoted@.drop_first() + quote_body(backslashes(pending as nat) + chars@.skip(
                i as int,
            )),
        decreases chars.len() - i,
    {
        let c = chars[i];
        let ghost before = quoted@;
        let ghost pending0 = pending as nat;
        let ghost rest = chars@.skip(i + 1);
        proof {
            assert(chars@.skip(i as int) =~= seq![c] + rest);
            assert(chars@.skip(i as int)[0] == c);
            assert(chars@.skip(i as int).drop_first() =~= rest);
            lemma_quote_body_after_run(pending0, chars@.skip(i as int));
        }
        if c == '\\' {
            pending = pending + 1;
            assert(backslashes(pending0) + chars@.skip(i as int) =~= backslashes(pending as nat) + rest);
        } else if c == '"' {
            push_backslashes(&mut quoted, pending * 2 + 1);
            push_char(&mut quoted, '"');
            pending = 0;
            assert(quoted@.drop_first() =~= before.drop_first() + backslashes(2 * pending0 + 1) + seq!['"']);
            assert(backslashes(0) + rest =~= rest);
        } else {
            push_backslashes(&mut quoted, pending);
            push_char(&mut quoted, c);
            pending = 0;
            assert(quoted@.drop_first() =~= before.drop_first() + backslashes(pending0) + seq![c]);
            assert(backslashes(0) + rest =~= rest);
        }
        i = i + 1;
    }
    let ghost body = quoted@;
    proof {
        assert(chars@.skip(i as int) =~= Seq::<char>::empty());
        lemma_quote_body_after_run(pending as nat, Seq::<char>::empty());
        assert(backslashes(pending as nat) + Seq::<char>::empty() =~= backslashes(pending as nat));
    }
    push_backslashes(&mut quoted, pending * 2);
    push_char(&mut quoted, '"');
    assert(body =~= seq!['"'] + body.drop_first());
    assert(quoted@ =~= quoted_argument(argument@));
    quoted
}

/// The command of the context menu entry: the quoted executable opening the
/// file lock tool on the clicked file (`%1`).
pub fn file_lock_command(executable: &str) -> (command: String)
    requires
        executable@.len() < usize::MAX / 2,
    ensures
        command@ == quoted_argument(executable@) + " --tool file-lock --path \"%1\""@,
{
    let mut command = quote_windows_argument(executable);
    push_str(&mut command, " --tool file-lock --path \"%1\"");
    command
}

/// Registry key of the menu entry, under the current user's classes.
pub const VERB_ROOT: &'static str = "Software\\Classes\\*\\shell\\WindowsToolbox";

/// Registry key of the file lock item of the menu.
pub const FILE_LOCK_VERB: &'static str = "Software\\Classes\\*\\shell\\WindowsToolbox\\shell\\file-lock";

/// Registry key of the command of the file lock item.
pub const FILE_LOCK_COMMAND: &'static str = "Software\\Classes\\*\\shell\\WindowsToolbox\\shell\\file-lock\\command";

} // verus!

//! Redaction and rotation rules of the local diagnostic log. Reasons are
//! compacted to one line, cut before any query parameter, stripped of a
//! trailing file path and bounded in length; the log rotates over three
//! files of at most 512 KiB.
use vstd::prelude::*;

use crate::paths::{join_path, join_spec};
use crate::text::{
    chars_of, decimal, is_ascii_alpha, is_ws, occurs_at, push_chars, push_decimal, push_str,
    string_of, trim, trim_bounds, trim_end, trim_start,
};

verus! {

/// Name of the current log file.
pub const LOG_FILE_NAME: &'static str = "windows-toolbox.log";

/// Size at which the log rotates, in bytes.
pub const LOG_FILE_LIMIT: u64 = 524288;

/// Number of log files kept, the current one included.
pub const LOG_FILE_COUNT: usize = 3;

/// Longest redacted reason, in characters.
pub const MAX_REASON_CHARS: usize = 600;

/// What kind of startup failure is recorded.
#[derive(Clone, Copy, Debug, PartialEq, Eq, Structural)]
pub enum StartupFailureKind {
    Panic,
    Startup,
}

impl StartupFailureKind {
    pub open spec fn spec_label(self) -> Seq<char> {
        match self {
            StartupFailureKind::Panic => "panic"@,
            StartupFailureKind::Startup => "startup-error"@,
        }
    }

    pub fn label(self) -> (l: &'static str)
        ensures
            l@ == self.spec_label(),
    {
        match self {
            StartupFailureKind::Panic => "panic",
            StartupFailureKind::Startup => "startup-error",
        }
    }
}

/// File name of the log with the given rotation index; 0 is the current log.
pub open spec fn rotated_file_name(index: usize) -> Seq<char> {
    if index == 0 {
        "windows-toolbox.log"@
    } else {
        "windows-toolbox."@ + decimal(index as nat) + ".log"@
    }
}

/// Path of the log with the given rotation index inside `directory`.
pub fn rotated_path(directory: &str, index: usize) -> (p: String)
    ensures
        p@ == join_spec(directory@, rotated_file_name(index)),
{
    if index == 0 {
        join_path(directory, LOG_FILE_NAME)
    } else {
        let mut name = String::new();
        push_str(&mut name, "windows-toolbox.");
        push_decimal(&mut name, index as u64);
        push_str(&mut name, ".log");
        join_path(directory, name.as_str())
    }
}

/// Whether appending `record_bytes` to a log of `current_size` bytes must
/// rotate first.
pub fn needs_rotation(current_size: u64, record_bytes: u64) -> (b: bool)
    ensures
        b == (current_size + record_bytes > LOG_FILE_LIMIT),
{
    current_size > LOG_FILE_LIMIT || record_bytes > LOG_FILE_LIMIT - current_size
}

/// The renames of one rotation, in order: each pair moves the log with the
/// first index onto the second, oldest first, so that at most
/// `LOG_FILE_COUNT` files remain.
pub fn rotation_moves() -> (moves: Vec<(usize, usize)>)
    ensures
        moves@.len() == LOG_FILE_COUNT - 1,
        forall|k: int|
            0 <= k < moves@.len() ==> #[trigger] moves@[k] == ((LOG_FILE_COUNT - 2 - k) as usize, (
            LOG_FILE_COUNT - 1 - k) as usize),
{
    let mut moves: Vec<(usize, usize)> = Vec::new();
    let mut index = LOG_FILE_COUNT - 1;
    while index >= 1
        invariant
            index <= LOG_FILE_COUNT - 1,
            moves@.len() == LOG_FILE_COUNT - 1 - index,
            forall|k: int|
                0 <= k < moves@.len() ==> #[trigger] moves@[k] == ((LOG_FILE_COUNT - 2 - k) as usize, (
                LOG_FILE_COUNT - 1 - k) as usize),
        decreases index,
    {
        moves.push((index - 1, index));
        index = index - 1;
    }
    moves
}

/// Carriage returns and line feeds become spaces.
pub open spec fn one_line(s: Seq<char>) -> Seq<char> {
    s.map_values(
        |c: char|
            if c == '\r' || c == '\n' {
                ' '
            } else {
                c
            },
    )
}

/// The first position at or after `i` where `m` occurs in `s`.
pub open spec fn find_from(s: Seq<char>, m: Seq<char>, i: int) -> Option<int>
    decreases s.len() + 1 - i,
{
    if i < 0 || i + m.len() > s.len() {
        None
    } else if occurs_at(s, m, i) {
        Some(i)
    } else {
        find_from(s, m, i + 1)
    }
}

/// The markers after which a reason may carry user data.
pub open spec fn sensitive_markers() -> Seq<Seq<char>> {
    seq!["--path"@, "--port"@, "--pid"@, "不支持的启动参数："@, "实际为："@]
}

/// The earliest position of any of `markers[k..]` in `s`, or `s.len()`.
pub open spec fn cutoff_from(s: Seq<char>, markers: Seq<Seq<char>>) -> int
    decreases markers.len(),
{
    if markers.len() == 0 {
        s.len() as int
    } else {
        let rest = cutoff_from(s, markers.drop_first());
        match find_from(s, markers[0], 0) {
            Some(p) => if p < rest {
                p
            } else {
                rest
            },
            None => rest,
        }
    }
}

/// A path starts at `i`: a drive letter, a colon and a separator, or two
/// backslashes followed by at least one more character.
pub open spec fn path_starts_at(v: Seq<char>, i: int) -> bool {
    &&& 0 <= i
    &&& i + 2 < v.len()
    &&& ((is_ascii_alpha(v[i]) && v[i + 1] == ':' && (v[i + 2] == '\\' || v[i + 2] == '/')) || (
    v[i] == '\\' && v[i + 1] == '\\'))
}

/// The first position at or after `i` where a path starts.
pub open spec fn first_path_from(v: Seq<char>, i: int) -> Option<int>
    decreases v.len() - i,
{
    if i < 0 || i + 2 >= v.len() {
        None
    } else if path_starts_at(v, i) {
        Some(i)
    } else {
        first_path_from(v, i + 1)
    }
}

/// `v` with everything from the first path on replaced by a notice.
pub open spec fn redact_path_spec(v: Seq<char>) -> Seq<char> {
    match first_path_from(v, 0) {
        None => v,
        Some(i) => trim_end(v.take(i)) + "[路径已隐藏]"@,
    }
}

/// A failure reason made safe for the diagnostic log.
pub open spec fn sanitize_spec(reason: Seq<char>) -> Seq<char> {
    let compact = one_line(reason);
    let cut = cutoff_from(compact, sensitive_markers());
    let safe = if cut < compact.len() {
        trim(compact.take(cut)) + "[参数已隐藏]"@
    } else {
        trim(compact)
    };
    let redacted = redact_path_spec(safe);
    if redacted.len() <= MAX_REASON_CHARS {
        redacted
    } else {
        redacted.take(MAX_REASON_CHARS as int)
    }
}

/// Whether `m` occurs in `s` at `i`.
fn occurs_at_exec(s: &Vec<char>, m: &Vec<char>, i: usize) -> (b: bool)
    requires
        i + m@.len() <= s@.len(),
    ensures
        b == occurs_at(s@, m@, i as int),
{
    let mut k: usize = 0;
    while k < m.len()
        invariant
            i + m@.len() <= s@.len(),
            s@.len() == s.len(),
            k <= m@.len(),
            forall|j: int| 0 <= j < k ==> s@[i + j] == m@[j],
        decreases m.len() - k,
    {
        if s[i + k] != m[k] {
            assert(s@.subrange(i as int, i + m@.len())[k as int] != m@[k as int]);
            return false;
        }
        k = k + 1;
    }
    assert(s@.subrange(i as int, i + m@.len()) =~= m@);
    true
}

proof fn lemma_find_bounds(s: Seq<char>, m: Seq<char>, i: int)
    ensures
        find_from(s, m, i) matches Some(p) ==> 0 <= i <= p && p + m.len() <= s.len(),
    decreases s.len() + 1 - i,
{
    if !(i < 0 || i + m.len() > s.len()) && !occurs_at(s, m, i) {
        lemma_find_bounds(s, m, i + 1);
    }
}

/// The first position of `m` in `s`, if any.
fn find_exec(s: &Vec<char>, m: &Vec<char>) -> (r: Option<usize>)
    ensures
        match find_from(s@, m@, 0) {
            None => r is None,
            Some(p) => r matches Some(q) && q as int == p,
        },
{
    let mut i: usize = 0;
    if m.len() > s.len() {
        return None;
    }
    let last = s.len() - m.len();
    loop
        invariant
            last == s@.len() - m@.len(),
            i <= last,
            m@.len() <= s@.len(),
            find_from(s@, m@, 0) == find_from(s@, m@, i as int),
        decreases last - i,
    {
        if occurs_at_exec(s, m, i) {
            return Some(i);
        }
        if i == last {
            assert(find_from(s@, m@, i + 1) is None);
            return None;
        }
        i = i + 1;
    }
}

/// `one_line` of the characters of `s`.
fn compact_chars(s: &str) -> (v: Vec<char>)
    ensures
        v@ == one_line(s@),
{
    let chars = chars_of(s);
    let mut v: Vec<char> = Vec::new();
    let mut i: usize = 0;
    while i < chars.len()
        invariant
            i <= chars@.len(),
            v@ =~= one_line(chars@.take(i as int)),
        decreases chars.len() - i,
    {
        let c = chars[i];
        if c == '\r' || c == '\n' {
            v.push(' ');
        } else {
            v.push(c);
        }
        i = i + 1;
    }
    assert(chars@.take(i as int) =~= chars@);
    v
}

/// The first position where a path starts, if any.
fn first_path(v: &Vec<char>) -> (r: Option<usize>)
    ensures
        match first_path_from(v@, 0) {
            None => r is None,
            Some(p) => r == Some(p as usize),
        },
{
    if v.len() < 3 {
        return None;
    }
    let mut i: usize = 0;
    while i < v.len() - 2
        invariant
            v@.len() >= 3,
            i <= v@.len() - 2,
            first_path_from(v@, 0) == first_path_from(v@, i as int),
        decreases v.len() - i,
    {
        let a = v[i];
        if (('a' <= a && a <= 'z') || ('A' <= a && a <= 'Z')) && v[i + 1] == ':' && (v[i + 2]
            == '\\' || v[i + 2] == '/') {
            return Some(i);
        }
        if a == '\\' && v[i + 1] == '\\' {
            return Some(i);
        }
        i = i + 1;
    }
    None
}

proof fn lemma_first_path_bounds(v: Seq<char>, i: int)
    requires
        0 <= i,
    ensures
        first_path_from(v, i) matches Some(p) ==> i <= p && p + 2 < v.len(),
    decreases v.len() - i,
{
    if i + 2 < v.len() && !path_starts_at(v, i) {
        lemma_first_path_bounds(v, i + 1);
    }
}

/// The end of `v[..end]` without its trailing whitespace.
fn trim_end_bound(v: &Vec<char>, end: usize) -> (r: usize)
    requires
        end <= v@.len(),
    ensures
        r <= end,
        trim_end(v@.take(end as int)) == v@.take(r as int),
{
    let mut j = end;
    while j > 0 && crate::text::char_is_ws(v[j - 1])
        invariant
            j <= end <= v@.len(),
            trim_end(v@.take(end as int)) == trim_end(v@.take(j as int)),
        decreases j,
    {
        proof {
            assert(v@.take(j as int).drop_last() =~= v@.take(j - 1));
            assert(v@.take(j as int).last() == v@[j - 1]);
        }
        j = j - 1;
    }
    proof {
        if j > 0 {
            assert(v@.take(j as int).last() == v@[j - 1]);
        }
    }
    j
}

/// Replaces everything from the first file path on with a notice, trimming
/// the text before it.
pub fn redact_path_tail(value: &str) -> (r: String)
    ensures
        r@ == redact_path_spec(value@),
{
    let v = chars_of(value);
    proof {
        lemma_first_path_bounds(v@, 0);
    }
    match first_path(&v) {
        None => string_of(&v, 0, v.len()),
        Some(i) => {
            let end = trim_end_bound(&v, i);
            let mut out = string_of(&v, 0, end);
            push_str(&mut out, "[路径已隐藏]");
            out
        },
    }
}

/// Makes a failure reason safe for the diagnostic log: one line, cut before
/// the first query parameter marker, without a trailing file path, at most
/// `MAX_REASON_CHARS` characters.
pub fn sanitize_reason(reason: &str) -> (r: String)
    ensures
        r@ == sanitize_spec(reason@),
{
    let compact = compact_chars(reason);
    let markers: [&str; 5] = ["--path", "--port", "--pid", "不支持的启动参数：", "实际为："];
    let mut cut = compact.len();
    let mut k: usize = 5;
    while k > 0
        invariant
            k <= 5,
            markers@ == seq!["--path", "--port", "--pid", "不支持的启动参数：", "实际为："],
            cut as int == cutoff_from(compact@, sensitive_markers().skip(k as int)),
            cut <= compact@.len(),
        decreases k,
    {
        k = k - 1;
        let marker = chars_of(markers[k]);
        let ghost sk = sensitive_markers().skip(k as int);
        let ghost old_cut = cut as int;
        proof {
            assert(old_cut == cutoff_from(compact@, sensitive_markers().skip(k + 1)));
            assert(sensitive_markers()[k as int] == markers@[k as int]@);
            assert(sk.drop_first() =~= sensitive_markers().skip(k + 1));
            assert(old_cut == cutoff_from(compact@, sk.drop_first()));
            assert(sk[0] == marker@);
            assert(sk.len() > 0);
        }
        proof {
            lemma_find_bounds(compact@, marker@, 0);
        }
        let found = find_exec(&compact, &marker);
        match found {
            Some(p) => {
                assert(find_from(compact@, marker@, 0) == Some(p as int));
                if p < cut {
                    cut = p;
                }
            },
            None => {
                assert(find_from(compact@, marker@, 0) is None);
            },
        }
        assert(cutoff_from(compact@, sk) == (match find_from(compact@, marker@, 0) {
            Some(p) => if p < old_cut {
                p
            } else {
                old_cut
            },
            None => old_cut,
        }));
        assert(cut as int == cutoff_from(compact@, sk));
    }
    assert(sensitive_markers().skip(0) =~= sensitive_markers());
    let mut safe = String::new();
    let (a, b) = trim_bounds_prefix(&compact, cut);
    push_chars(&mut safe, &compact, a, b);
    if cut < compact.len() {
        push_str(&mut safe, "[参数已隐藏]");
    }
    let redacted = redact_path_tail(safe.as_str());
    let chars = chars_of(redacted.as_str());
    let limit = if chars.len() <= MAX_REASON_CHARS {
        chars.len()
    } else {
        MAX_REASON_CHARS
    };
    proof {
        assert(compact@.take(compact@.len() as int) =~= compact@);
    }
    let out = string_of(&chars, 0, limit);
    assert(chars@.subrange(0, limit as int) =~= chars@.take(limit as int));
    proof {
        if chars@.len() <= MAX_REASON_CHARS {
            assert(chars@.take(limit as int) =~= chars@);
        }
    }
    out
}

/// Bounds of `trim(v[..end])` in `v`.
fn trim_bounds_prefix(v: &Vec<char>, end: usize) -> (r: (usize, usize))
    requires
        end <= v@.len(),
    ensures
        r.0 <= r.1 <= end,
        trim(v@.take(end as int)) == v@.subrange(r.0 as int, r.1 as int),
{
    let mut prefix: Vec<char> = Vec::new();
    let mut i: usize = 0;
    while i < end
        invariant
            i <= end <= v@.len(),
            prefix@ == v@.take(i as int),
        decreases end - i,
    {
        prefix.push(v[i]);
        i = i + 1;
        assert(prefix@ =~= v@.take(i as int));
    }
    let (a, b) = trim_bounds(&prefix);
    assert(prefix@.subrange(a as int, b as int) =~= v@.subrange(a as int, b as int));
    (a, b)
}

/// The record written for a startup failure or a panic.
pub open spec fn startup_record_spec(kind: StartupFailureKind, timestamp: u64, reason: Seq<char>) -> Seq<
    char,
> {
    "["@ + decimal(timestamp as nat) + "] "@ + kind.spec_label() + "："@ + sanitize_spec(reason)
        + "；查询参数与用户路径已脱敏。\n"@
}

/// The log record of a startup failure: time, kind and the redacted reason.
pub fn startup_failure_record(kind: StartupFailureKind, timestamp: u64, reason: &str) -> (r: String)
    ensures
        r@ == startup_record_spec(kind, timestamp, reason@),
{
    let safe = sanitize_reason(reason);
    let mut out = String::new();
    push_str(&mut out, "[");
    push_decimal(&mut out, timestamp);
    push_str(&mut out, "] ");
    push_str(&mut out, kind.label());
    push_str(&mut out, "：");
    push_str(&mut out, safe.as_str());
    push_str(&mut out, "；查询参数与用户路径已脱敏。\n");
    assert(out@ =~= startup_record_spec(kind, timestamp, reason@));
    out
}

/// The log record of one runtime event: time and the redacted event text.
pub fn runtime_event_record(timestamp: u64, text: &str) -> (r: String)
    ensures
        r@ == "["@ + decimal(timestamp as nat) + "] "@ + sanitize_spec(text@) + "\n"@,
{
    let safe = sanitize_reason(text);
    let mut out = String::new();
    push_str(&mut out, "[");
    push_decimal(&mut out, timestamp);
    push_str(&mut out, "] ");
    push_str(&mut out, safe.as_str());
    push_str(&mut out, "\n");
    assert(out@ =~= "["@ + decimal(timestamp as nat) + "] "@ + sanitize_spec(text@) + "\n"@);
    out
}

// ---------------------------------------------------------------------------
// What a sanitized reason never holds
// ---------------------------------------------------------------------------

/// `m` occurs nowhere in `v`.
pub open spec fn free_of(v: Seq<char>, m: Seq<char>) -> bool {
    forall|i: int| !occurs_at(v, m, i)
}

/// No path starts anywhere in `v`.
pub open spec fn free_of_paths(v: Seq<char>) -> bool {
    forall|i: int| !path_starts_at(v, i)
}

/// `v` holds no line break.
pub open spec fn single_line(v: Seq<char>) -> bool {
    forall|k: int| 0 <= k < v.len() ==> (#[trigger] v[k]) != '\r' && v[k] != '\n'
}

proof fn lemma_free_subrange(v: Seq<char>, m: Seq<char>, x: int, y: int)
    requires
        free_of(v, m),
        0 <= x <= y <= v.len(),
    ensures
        free_of(v.subrange(x, y), m),
{
    let w = v.subrange(x, y);
    assert forall|i: int| !occurs_at(w, m, i) by {
        if occurs_at(w, m, i) {
            assert(v.subrange(x + i, x + i + m.len()) =~= w.subrange(i, i + m.len()));
            assert(occurs_at(v, m, x + i));
        }
    }
}

proof fn lemma_free_concat(a: Seq<char>, b: Seq<char>, m: Seq<char>)
    requires
        free_of(a, m),
        free_of(b, m),
        b.len() > 0,
        forall|k: int| 0 <= k < m.len() ==> m[k] != b[0],
    ensures
        free_of(a + b, m),
{
    let v = a + b;
    assert forall|i: int| !occurs_at(v, m, i) by {
        if occurs_at(v, m, i) {
            if i + m.len() <= a.len() {
                assert(a.subrange(i, i + m.len()) =~= v.subrange(i, i + m.len()));
                assert(occurs_at(a, m, i));
            } else if i >= a.len() {
                assert(b.subrange(i - a.len(), i - a.len() + m.len()) =~= v.subrange(i, i + m.len()));
                assert(occurs_at(b, m, i - a.len()));
            } else {
                let k = a.len() - i;
                assert(v.subrange(i, i + m.len())[k] == v[a.len() as int]);
                assert(m[k] == b[0]);
            }
        }
    }
}

proof fn lemma_free_by_first_char(b: Seq<char>, m: Seq<char>)
    requires
        m.len() > 0,
        forall|k: int| 0 <= k < b.len() ==> b[k] != m[0],
    ensures
        free_of(b, m),
{
    assert forall|i: int| !occurs_at(b, m, i) by {
        if occurs_at(b, m, i) {
            assert(b.subrange(i, i + m.len())[0] == b[i]);
        }
    }
}

proof fn lemma_paths_prefix(v: Seq<char>, y: int)
    requires
        0 <= y <= v.len(),
        forall|i: int| 0 <= i && i + 2 < y ==> !#[trigger] path_starts_at(v, i),
    ensures
        free_of_paths(v.subrange(0, y)),
{
    let w = v.subrange(0, y);
    assert forall|i: int| !path_starts_at(w, i) by {
        if path_starts_at(w, i) {
            assert(w[i] == v[i] && w[i + 1] == v[i + 1] && w[i + 2] == v[i + 2]);
            assert(path_starts_at(v, i));
        }
    }
}

proof fn lemma_find_from_none(s: Seq<char>, m: Seq<char>, i: int, j: int)
    requires
        0 <= i <= j,
        find_from(s, m, i) is None,
    ensures
        !occurs_at(s, m, j),
    decreases j - i,
{
    if i < j && !(i + m.len() > s.len()) {
        lemma_find_from_none(s, m, i + 1, j);
    }
}

proof fn lemma_find_from_first(s: Seq<char>, m: Seq<char>, i: int, j: int)
    requires
        0 <= i <= j,
        occurs_at(s, m, j),
    ensures
        find_from(s, m, i) matches Some(p) && p <= j,
    decreases j - i,
{
    if i < j && !occurs_at(s, m, i) {
        lemma_find_from_first(s, m, i + 1, j);
    }
}

proof fn lemma_cutoff_before(s: Seq<char>, markers: Seq<Seq<char>>, k: int, j: int)
    requires
        0 <= k < markers.len(),
        occurs_at(s, markers[k], j),
    ensures
        cutoff_from(s, markers) <= j,
    decreases markers.len(),
{
    if k == 0 {
        lemma_find_from_first(s, markers[0], 0, j);
    } else {
        assert(markers.drop_first()[k - 1] == markers[k]);
        lemma_cutoff_before(s, markers.drop_first(), k - 1, j);
    }
}

proof fn lemma_cutoff_bounds(s: Seq<char>, markers: Seq<Seq<char>>)
    ensures
        0 <= cutoff_from(s, markers) <= s.len(),
    decreases markers.len(),
{
    if markers.len() > 0 {
        lemma_cutoff_bounds(s, markers.drop_first());
        lemma_find_bounds(s, markers[0], 0);
    }
}

proof fn lemma_first_path_none(v: Seq<char>, i: int, j: int)
    requires
        0 <= i <= j,
        first_path_from(v, i) is None,
    ensures
        !path_starts_at(v, j),
    decreases j - i,
{
    if i < j && i + 2 < v.len() {
        lemma_first_path_none(v, i + 1, j);
    }
}

proof fn lemma_first_path_some(v: Seq<char>, i: int, j: int)
    requires
        0 <= i <= j,
        first_path_from(v, i) matches Some(p) && j < p,
    ensures
        !path_starts_at(v, j),
    decreases j - i,
{
    if i < j {
        lemma_first_path_some(v, i + 1, j);
    }
}

/// The trimmed text is a part of the text: `trim(s) == s[x..y]`.
proof fn lemma_trim_is_part(s: Seq<char>) -> (xy: (int, int))
    ensures
        0 <= xy.0 <= xy.1 <= s.len(),
        trim(s) == s.subrange(xy.0, xy.1),
        trim_end(s) == s.subrange(0, trim_end(s).len() as int),
{
    let x = lemma_trim_start_offset(s);
    let t = trim_start(s);
    let y = lemma_trim_end_length(t);
    lemma_trim_end_length(s);
    assert(t.take(y) =~= s.subrange(x, x + y));
    (x, x + y)
}

proof fn lemma_trim_start_offset(s: Seq<char>) -> (x: int)
    ensures
        0 <= x <= s.len(),
        trim_start(s) == s.skip(x),
    decreases s.len(),
{
    if s.len() > 0 && is_ws(s[0]) {
        let x = lemma_trim_start_offset(s.drop_first());
        assert(s.drop_first().skip(x) =~= s.skip(x + 1));
        x + 1
    } else {
        assert(s.skip(0) =~= s);
        0
    }
}

proof fn lemma_trim_end_length(s: Seq<char>) -> (y: int)
    ensures
        0 <= y <= s.len(),
        trim_end(s) == s.take(y),
        y == trim_end(s).len(),
    decreases s.len(),
{
    if s.len() > 0 && is_ws(s.last()) {
        let y = lemma_trim_end_length(s.drop_last());
        assert(s.drop_last().take(y) =~= s.take(y));
        y
    } else {
        assert(s.take(s.len() as int) =~= s);
        s.len() as int
    }
}

/// The notice that replaces a parameter, and the one that replaces a path.
proof fn lemma_notices()
    ensures
        "[参数已隐藏]"@.len() == 7,
        "[路径已隐藏]"@.len() == 7,
        "[参数已隐藏]"@[0] == '[',
        "[路径已隐藏]"@[0] == '[',
        single_line("[参数已隐藏]"@),
        single_line("[路径已隐藏]"@),
        free_of_paths("[路径已隐藏]"@),
        forall|k: int| 0 <= k < 5 ==> free_of("[参数已隐藏]"@, #[trigger] sensitive_markers()[k]),
        forall|k: int| 0 <= k < 5 ==> free_of("[路径已隐藏]"@, #[trigger] sensitive_markers()[k]),
        forall|k: int, c: int| 0 <= k < 5 && 0 <= c < sensitive_markers()[k].len() ==> #[trigger] sensitive_markers()[k][c] != '[',
{
    reveal_strlit("[参数已隐藏]");
    reveal_strlit("[路径已隐藏]");
    reveal_strlit("--path");
    reveal_strlit("--port");
    reveal_strlit("--pid");
    reveal_strlit("不支持的启动参数：");
    reveal_strlit("实际为：");
    let p = "[参数已隐藏]"@;
    let q = "[路径已隐藏]"@;
    assert forall|i: int| !path_starts_at(q, i) by {
        if 0 <= i && i + 2 < q.len() {
            assert(q[i + 1] != ':' && q[i + 1] != '\\');
        }
    }
    let ms = sensitive_markers();
    assert forall|k: int| 0 <= k < 5 implies free_of(p, #[trigger] ms[k]) && free_of(q, ms[k]) by {
        assert(ms[k].len() > 0);
        lemma_free_by_first_char(p, ms[k]);
        lemma_free_by_first_char(q, ms[k]);
    }
}

/// A reason made safe for the log is one line, holds no path and none of the
/// markers after which user data may follow, whatever the reason was: paths,
/// query values, ports and PIDs never reach the diagnostic log.
pub proof fn lemma_sanitized_reason_is_safe(reason: Seq<char>)
    ensures
        single_line(sanitize_spec(reason)),
        free_of_paths(sanitize_spec(reason)),
        forall|k: int| 0 <= k < sensitive_markers().len() ==> free_of(sanitize_spec(reason), #[trigger] sensitive_markers()[k]),
{
    lemma_notices();
    let ms = sensitive_markers();
    assert(ms.len() == 5);
    let compact = one_line(reason);
    let cut = cutoff_from(compact, ms);
    lemma_cutoff_bounds(compact, ms);
    assert(single_line(compact));
    // The part before the first marker holds no marker.
    let head = compact.take(cut);
    assert forall|k: int| 0 <= k < 5 implies free_of(head, #[trigger] ms[k]) by {
        assert forall|i: int| !occurs_at(head, ms[k], i) by {
            if occurs_at(head, ms[k], i) {
                assert(compact.subrange(i, i + ms[k].len()) =~= head.subrange(i, i + ms[k].len()));
                lemma_cutoff_before(compact, ms, k, i);
                assert(ms[k].len() > 0) by {
                    reveal_strlit("--path");
                    reveal_strlit("--port");
                    reveal_strlit("--pid");
                    reveal_strlit("不支持的启动参数：");
                    reveal_strlit("实际为：");
                }
            }
        }
    }
    let safe = if cut < compact.len() {
        trim(compact.take(cut)) + "[参数已隐藏]"@
    } else {
        trim(compact)
    };
    // The safe text holds no marker and no line break.
    if cut < compact.len() {
        let (x, y) = lemma_trim_is_part(head);
        let t = trim(head);
        assert forall|k: int| 0 <= k < 5 implies free_of(safe, #[trigger] ms[k]) by {
            lemma_free_subrange(head, ms[k], x, y);
            lemma_free_concat(t, "[参数已隐藏]"@, ms[k]);
        }
        assert forall|c: int| 0 <= c < safe.len() implies (#[trigger] safe[c]) != '\r' && safe[c] != '\n' by {
            if c < t.len() {
                assert(t[c] == head[x + c]);
            } else {
                assert(safe[c] == "[参数已隐藏]"@[c - t.len()]);
            }
        }
    } else {
        assert(head =~= compact);
        let (x, y) = lemma_trim_is_part(compact);
        assert forall|k: int| 0 <= k < 5 implies free_of(safe, #[trigger] ms[k]) by {
            lemma_free_subrange(head, ms[k], x, y);
        }
        assert forall|c: int| 0 <= c < safe.len() implies (#[trigger] safe[c]) != '\r' && safe[c] != '\n' by {
            assert(safe[c] == compact[x + c]);
        }
    }
    // Removing the path keeps all of this and removes every path.
    let redacted = redact_path_spec(safe);
    match first_path_from(safe, 0) {
        None => {
            assert forall|i: int| !path_starts_at(safe, i) by {
                if i >= 0 {
                    lemma_first_path_none(safe, 0, i);
                }
            }
        },
        Some(i) => {
            lemma_first_path_bounds(safe, 0);
            let a = trim_end(safe.take(i));
            let y = lemma_trim_end_length(safe.take(i));
            assert(a =~= safe.subrange(0, y));
            assert forall|j: int| 0 <= j && j + 2 < y implies !#[trigger] path_starts_at(safe, j) by {
                lemma_first_path_some(safe, 0, j);
            }
            lemma_paths_prefix(safe, y);
            assert forall|k: int| 0 <= k < 5 implies free_of(redacted, #[trigger] ms[k]) by {
                lemma_free_subrange(safe, ms[k], 0, y);
                lemma_free_concat(a, "[路径已隐藏]"@, ms[k]);
            }
            let b = "[路径已隐藏]"@;
            assert forall|j: int| !path_starts_at(redacted, j) by {
                if path_starts_at(redacted, j) {
                    if j + 2 < a.len() {
                        assert(path_starts_at(a, j));
                    } else if j >= a.len() {
                        assert(redacted[j] == b[j - a.len()] && redacted[j + 1] == b[j + 1 - a.len()]
                            && redacted[j + 2] == b[j + 2 - a.len()]);
                        assert(path_starts_at(b, j - a.len()));
                    } else if j + 1 == a.len() {
                        assert(redacted[j + 1] == b[0]);
                    } else {
                        assert(j + 2 == a.len());
                        assert(redacted[j + 2] == b[0]);
                        assert(redacted[j] == safe[j] && redacted[j + 1] == safe[j + 1]);
                        if safe[j] == '\\' && safe[j + 1] == '\\' {
                            assert(path_starts_at(safe, j));
                            lemma_first_path_some(safe, 0, j);
                        }
                    }
                }
            }
            assert forall|c: int| 0 <= c < redacted.len() implies (#[trigger] redacted[c]) != '\r' && redacted[c]
                != '\n' by {
                if c < a.len() {
                    assert(redacted[c] == safe[c]);
                } else {
                    assert(redacted[c] == b[c - a.len()]);
                }
            }
        },
    }
    // Keeping the first characters keeps all of it.
    if redacted.len() > MAX_REASON_CHARS {
        let out = redacted.take(MAX_REASON_CHARS as int);
        assert forall|k: int| 0 <= k < 5 implies free_of(out, #[trigger] ms[k]) by {
            lemma_free_subrange(redacted, ms[k], 0, MAX_REASON_CHARS as int);
            assert(out =~= redacted.subrange(0, MAX_REASON_CHARS as int));
        }
        assert forall|j: int| 0 <= j && j + 2 < MAX_REASON_CHARS implies !#[trigger] path_starts_at(redacted, j) by {}
        lemma_paths_prefix(redacted, MAX_REASON_CHARS as int);
        assert(out =~= redacted.subrange(0, MAX_REASON_CHARS as int));
    }
}

/// `x`, cut to at most `MAX_REASON_CHARS` characters.
pub open spec fn at_most_reason_chars(x: Seq<char>) -> Seq<char> {
    if x.len() <= MAX_REASON_CHARS {
        x
    } else {
        x.take(MAX_REASON_CHARS as int)
    }
}

proof fn lemma_find_from_at_least(s: Seq<char>, m: Seq<char>, i: int, j: int)
    requires
        0 <= i,
        forall|p: int| i <= p < j ==> !occurs_at(s, m, p),
    ensures
        find_from(s, m, i) matches Some(p) ==> p >= j,
    decreases s.len() + 1 - i,
{
    if !(i < 0 || i + m.len() > s.len()) && !occurs_at(s, m, i) {
        lemma_find_from_at_least(s, m, i + 1, j);
    }
}

proof fn lemma_cutoff_at_least(s: Seq<char>, markers: Seq<Seq<char>>, j: int)
    requires
        j <= s.len(),
        forall|k: int, p: int| 0 <= k < markers.len() && 0 <= p < j ==> !#[trigger] occurs_at(s, markers[k], p),
    ensures
        cutoff_from(s, markers) >= j,
    decreases markers.len(),
{
    if markers.len() > 0 {
        assert forall|k: int, p: int| 0 <= k < markers.drop_first().len() && 0 <= p < j implies !#[trigger] occurs_at(
            s,
            markers.drop_first()[k],
            p,
        ) by {
            assert(markers.drop_first()[k] == markers[k + 1]);
        }
        lemma_cutoff_at_least(s, markers.drop_first(), j);
        assert forall|p: int| 0 <= p < j implies !occurs_at(s, markers[0], p) by {}
        lemma_find_from_at_least(s, markers[0], 0, j);
    }
}

proof fn lemma_trim_end_keeps(x: Seq<char>, j: int)
    requires
        0 <= j < x.len(),
        !is_ws(x[j]),
    ensures
        trim_end(x).len() > j,
    decreases x.len(),
{
    if x.len() > 0 && is_ws(x.last()) {
        assert(j < x.len() - 1);
        assert(x.drop_last()[j] == x[j]);
        lemma_trim_end_keeps(x.drop_last(), j);
    }
}

proof fn lemma_first_path_at(v: Seq<char>, i: int, n: int)
    requires
        0 <= i <= n,
        path_starts_at(v, n),
        forall|p: int| i <= p < n ==> !path_starts_at(v, p),
    ensures
        first_path_from(v, i) == Some(n),
    decreases n - i,
{
    if i < n {
        lemma_first_path_at(v, i + 1, n);
    }
}

/// `a`, then the two backslashes that open a network share path, then `b`.
pub open spec fn with_share_path(a: Seq<char>, b: Seq<char>) -> Seq<char> {
    a + seq!['\\', '\\'] + b
}

/// A network share path in a reason never reaches the log: when a reason is
/// some text `a` on one line, followed by two backslashes and a further
/// non-blank part `b`, and no drive path, share path or parameter marker
/// starts in `a`, everything from the backslashes on is replaced by the path
/// notice, after the trailing blanks of `a`.
pub proof fn lemma_share_path_is_hidden(a: Seq<char>, b: Seq<char>)
    requires
        a.len() == 0 || !is_ws(a[0]),
        b.len() > 0,
        !is_ws(b[0]),
        single_line(a),
        single_line(b),
        forall|i: int|
            #![trigger with_share_path(a, b)[i]]
            0 <= i < a.len() ==> {
                &&& !(is_ascii_alpha(with_share_path(a, b)[i]) && with_share_path(a, b)[i + 1]
                    == ':' && (with_share_path(a, b)[i + 2] == '\\' || with_share_path(a, b)[i
                    + 2] == '/'))
                &&& !(with_share_path(a, b)[i] == '\\' && with_share_path(a, b)[i + 1] == '\\')
            },
        forall|k: int, p: int|
            0 <= k < sensitive_markers().len() ==> !#[trigger] occurs_at(a, sensitive_markers()[k], p),
    ensures
        sanitize_spec(with_share_path(a, b)) == at_most_reason_chars(trim_end(a) + "[路径已隐藏]"@),
{
    let s = with_share_path(a, b);
    let n = a.len() as int;
    let ms = sensitive_markers();
    reveal_strlit("--path");
    reveal_strlit("--port");
    reveal_strlit("--pid");
    reveal_strlit("不支持的启动参数：");
    reveal_strlit("实际为：");
    assert(ms.len() == 5);
    assert(s[n] == '\\' && s[n + 1] == '\\' && s[n + 2] == b[0]);
    // The reason is already one line.
    assert forall|i: int| 0 <= i < s.len() implies s[i] != '\r' && s[i] != '\n' by {
        if i < n {
            assert(s[i] == a[i]);
        } else if i >= n + 2 {
            assert(s[i] == b[i - n - 2]);
        }
    }
    assert(one_line(s) =~= s);
    // No marker starts before the share path.
    assert forall|k: int, p: int| 0 <= k < ms.len() && 0 <= p < n + 2 implies !#[trigger] occurs_at(s, ms[k], p) by {
        let m = ms[k];
        assert(m.len() > 0);
        assert forall|c: int| 0 <= c < m.len() implies m[c] != '\\' by {}
        if occurs_at(s, m, p) {
            if p + m.len() <= n {
                assert(a.subrange(p, p + m.len()) =~= s.subrange(p, p + m.len()));
                assert(occurs_at(a, m, p));
            } else {
                let c = if p <= n { n - p } else { 0 };
                assert(s.subrange(p, p + m.len())[c] == s[p + c]);
            }
        }
    }
    lemma_cutoff_at_least(s, ms, n + 2);
    lemma_cutoff_bounds(s, ms);
    let cut = cutoff_from(s, ms);
    let x = if cut < s.len() {
        s.take(cut)
    } else {
        s
    };
    assert(x.len() >= n + 2);
    assert forall|i: int| 0 <= i < x.len() implies x[i] == s[i] by {}
    assert(('\\' as u32) == 92);
    assert(!is_ws('\\'));
    assert(trim_start(x) == x) by {
        assert(!is_ws(x[0])) by {
            if n > 0 {
                assert(x[0] == a[0]);
            }
        }
    }
    let y = lemma_trim_end_length(x);
    lemma_trim_end_keeps(x, n + 1);
    if x.len() > n + 2 {
        lemma_trim_end_keeps(x, n + 2);
    }
    let t = trim(x);
    assert(t == x.take(y));
    let safe = if cut < s.len() {
        t + "[参数已隐藏]"@
    } else {
        t
    };
    lemma_notices();
    assert(safe.len() > n + 2);
    assert forall|i: int| 0 <= i < n + 2 implies safe[i] == s[i] by {
        assert(t[i] == x[i]);
    }
    assert(path_starts_at(safe, n));
    assert forall|p: int| 0 <= p < n implies !path_starts_at(safe, p) by {
        assert(safe[p] == s[p] && safe[p + 1] == s[p + 1] && safe[p + 2] == s[p + 2]);
    }
    lemma_first_path_at(safe, 0, n);
    assert(safe.take(n) =~= a) by {
        assert forall|i: int| 0 <= i < n implies safe.take(n)[i] == a[i] by {
            assert(safe[i] == s[i]);
        }
    }
}

/// `a`, then a drive letter, a colon and a separator, then `b`.
pub open spec fn with_drive_path(a: Seq<char>, letter: char, sep: char, b: Seq<char>) -> Seq<char> {
    a + seq![letter, ':', sep] + b
}

/// A drive path in a reason never reaches the log: when a reason is some
/// text `a` on one line, followed by a drive letter, a colon, a slash or
/// backslash and any further text `b`, and no drive path, share path or
/// parameter marker starts in `a`, everything from the drive letter on is
/// replaced by the path notice, after the trailing blanks of `a`.
pub proof fn lemma_drive_path_is_hidden(a: Seq<char>, letter: char, sep: char, b: Seq<char>)
    requires
        a.len() == 0 || !is_ws(a[0]),
        is_ascii_alpha(letter),
        sep == '\\' || sep == '/',
        single_line(a),
        single_line(b),
        forall|i: int|
            #![trigger with_drive_path(a, letter, sep, b)[i]]
            0 <= i < a.len() ==> {
                &&& !(is_ascii_alpha(with_drive_path(a, letter, sep, b)[i]) && with_drive_path(a, letter, sep, b)[i
                    + 1] == ':' && (with_drive_path(a, letter, sep, b)[i + 2] == '\\' || with_drive_path(
                    a,
                    letter,
                    sep,
                    b,
                )[i + 2] == '/'))
                &&& !(with_drive_path(a, letter, sep, b)[i] == '\\' && with_drive_path(a, letter, sep, b)[i + 1]
                    == '\\')
            },
        forall|k: int, p: int|
            0 <= k < sensitive_markers().len() && 0 <= p < a.len() ==> !#[trigger] occurs_at(
                with_drive_path(a, letter, sep, b),
                sensitive_markers()[k],
                p,
            ),
    ensures
        sanitize_spec(with_drive_path(a, letter, sep, b)) == at_most_reason_chars(trim_end(a) + "[路径已隐藏]"@),
{
    let s = with_drive_path(a, letter, sep, b);
    let n = a.len() as int;
    let ms = sensitive_markers();
    reveal_strlit("--path");
    reveal_strlit("--port");
    reveal_strlit("--pid");
    reveal_strlit("不支持的启动参数：");
    reveal_strlit("实际为：");
    assert(ms.len() == 5);
    assert(s[n] == letter && s[n + 1] == ':' && s[n + 2] == sep);
    assert(letter != '\r' && letter != '\n' && !is_ws(letter));
    assert forall|i: int| 0 <= i < s.len() implies s[i] != '\r' && s[i] != '\n' by {
        if i < n {
            assert(s[i] == a[i]);
        } else if i >= n + 3 {
            assert(s[i] == b[i - n - 3]);
        }
    }
    assert(one_line(s) =~= s);
    assert forall|k: int, p: int| 0 <= k < ms.len() && 0 <= p < n + 3 implies !#[trigger] occurs_at(s, ms[k], p) by {
        let m = ms[k];
        assert(m.len() > 0);
        if occurs_at(s, m, p) && p >= n {
            assert(s.subrange(p, p + m.len())[0] == s[p]);
            assert(m[0] == '-' || m[0] == '不' || m[0] == '实');
        }
    }
    lemma_cutoff_at_least(s, ms, n + 3);
    lemma_cutoff_bounds(s, ms);
    let cut = cutoff_from(s, ms);
    let x = if cut < s.len() {
        s.take(cut)
    } else {
        s
    };
    assert(x.len() >= n + 3);
    assert forall|i: int| 0 <= i < x.len() implies x[i] == s[i] by {}
    assert(('\\' as u32) == 92 && ('/' as u32) == 47);
    assert(!is_ws(sep));
    assert(trim_start(x) == x) by {
        assert(!is_ws(x[0])) by {
            if n > 0 {
                assert(x[0] == a[0]);
            }
        }
    }
    let y = lemma_trim_end_length(x);
    lemma_trim_end_keeps(x, n + 2);
    let t = trim(x);
    assert(t == x.take(y));
    let safe = if cut < s.len() {
        t + "[参数已隐藏]"@
    } else {
        t
    };
    lemma_notices();
    assert(safe.len() > n + 2);
    assert forall|i: int| 0 <= i < n + 3 implies safe[i] == s[i] by {
        assert(t[i] == x[i]);
    }
    assert(path_starts_at(safe, n));
    assert forall|p: int| 0 <= p < n implies !path_starts_at(safe, p) by {
        assert(safe[p] == s[p] && safe[p + 1] == s[p + 1] && safe[p + 2] == s[p + 2]);
    }
    lemma_first_path_at(safe, 0, n);
    assert(safe.take(n) =~= a) by {
        assert forall|i: int| 0 <= i < n implies safe.take(n)[i] == a[i] by {
            assert(safe[i] == s[i]);
        }
    }
}

/// A parameter marker in a reason cuts it: when a reason is some text `a` on
/// one line without a path or marker, followed by one of the markers after
/// which user data follows (`--path`, `--port`, `--pid`, `不支持的启动参数：`,
/// `实际为：`) and anything after it, only `a` is kept, without its
/// trailing blanks, followed by the parameter notice.
pub proof fn lemma_marker_cuts_reason(a: Seq<char>, marker: Seq<char>, b: Seq<char>)
    requires
        marker == "--path"@ || marker == "--port"@ || marker == "--pid"@ || marker == "不支持的启动参数："@
            || marker == "实际为："@,
        a.len() == 0 || !is_ws(a[0]),
        single_line(a),
        single_line(b),
        forall|i: int|
            0 <= i < a.len() ==> {
                &&& !(is_ascii_alpha(#[trigger] a[i]) && i + 2 < a.len() && a[i + 1] == ':' && (a[i + 2] == '\\'
                    || a[i + 2] == '/'))
                &&& !(a[i] == '\\' && i + 1 < a.len() && a[i + 1] == '\\')
            },
        forall|m: Seq<char>, p: int|
            (m == "--path"@ || m == "--port"@ || m == "--pid"@ || m == "不支持的启动参数："@ || m == "实际为："@)
                && 0 <= p < a.len() ==> !#[trigger] occurs_at(a + marker + b, m, p),
    ensures
        sanitize_spec(a + marker + b) == at_most_reason_chars(trim_end(a) + "[参数已隐藏]"@),
{
    let s = a + marker + b;
    let n = a.len() as int;
    let ms = sensitive_markers();
    reveal_strlit("--path");
    reveal_strlit("--port");
    reveal_strlit("--pid");
    reveal_strlit("不支持的启动参数：");
    reveal_strlit("实际为：");
    lemma_notices();
    reveal_strlit("[参数已隐藏]");
    assert(ms.len() == 5);
    assert(marker.len() > 0);
    assert forall|c: int| 0 <= c < marker.len() implies marker[c] != '\r' && marker[c] != '\n' by {}
    assert forall|i: int| 0 <= i < s.len() implies s[i] != '\r' && s[i] != '\n' by {
        if i < n {
            assert(s[i] == a[i]);
        } else if i < n + marker.len() {
            assert(s[i] == marker[i - n]);
        } else {
            assert(s[i] == b[i - n - marker.len()]);
        }
    }
    assert(one_line(s) =~= s);
    // The cut falls exactly where the marker starts.
    assert forall|k: int, p: int| 0 <= k < ms.len() && 0 <= p < n implies !#[trigger] occurs_at(s, ms[k], p) by {
        assert(ms[k] == "--path"@ || ms[k] == "--port"@ || ms[k] == "--pid"@ || ms[k] == "不支持的启动参数："@
            || ms[k] == "实际为："@);
    }
    lemma_cutoff_at_least(s, ms, n);
    let k: int = if marker == "--path"@ {
        0
    } else if marker == "--port"@ {
        1
    } else if marker == "--pid"@ {
        2
    } else if marker == "不支持的启动参数："@ {
        3
    } else {
        4
    };
    assert(ms[k] == marker);
    assert(s.subrange(n, n + marker.len()) =~= marker);
    assert(occurs_at(s, ms[k], n));
    lemma_cutoff_before(s, ms, k, n);
    let cut = cutoff_from(s, ms);
    assert(cut == n);
    assert(cut < s.len());
    assert(s.take(cut) =~= a);
    assert(trim_start(a) == a);
    let y = lemma_trim_end_length(a);
    let t = trim(a);
    assert(t == a.take(y));
    let notice = "[参数已隐藏]"@;
    let safe = t + notice;
    // No path starts in the kept text.
    assert forall|i: int| !path_starts_at(safe, i) by {
        if path_starts_at(safe, i) {
            if i + 2 < y {
                assert(safe[i] == a[i] && safe[i + 1] == a[i + 1] && safe[i + 2] == a[i + 2]);
            } else if i + 1 < y {
                assert(safe[i] == a[i] && safe[i + 1] == a[i + 1]);
                assert(safe[i + 2] == notice[0]);
            } else if i < y {
                assert(safe[i + 1] == notice[0]);
            } else {
                assert(safe[i + 1] == notice[i + 1 - y]);
            }
        }
    }
    if first_path_from(safe, 0) is Some {
        let p = first_path_from(safe, 0)->0;
        lemma_first_path_bounds(safe, 0);
        assert(path_starts_at(safe, p)) by {
            lemma_first_path_is_path(safe, 0);
        }
    }
}

proof fn lemma_first_path_is_path(v: Seq<char>, i: int)
    ensures
        first_path_from(v, i) matches Some(p) ==> path_starts_at(v, p),
    decreases v.len() - i,
{
    if !(i < 0 || i + 2 >= v.len()) && !path_starts_at(v, i) {
        lemma_first_path_is_path(v, i + 1);
    }
}

/// A sanitized reason is never longer than 600 characters, and a reason
/// with nothing to hide is kept exactly: one line, without surrounding
/// blanks, at most 600 characters, with no drive path, share path or
/// parameter marker in it.
pub proof fn lemma_sanitize_keeps_plain_reason(r: Seq<char>)
    ensures
        sanitize_spec(r).len() <= 600,
        ({
            &&& single_line(r)
            &&& r.len() <= 600
            &&& (r.len() == 0 || (!is_ws(r[0]) && !is_ws(r.last())))
            &&& forall|i: int|
                0 <= i < r.len() ==> {
                    &&& !(is_ascii_alpha(#[trigger] r[i]) && i + 2 < r.len() && r[i + 1] == ':' && (r[i + 2]
                        == '\\' || r[i + 2] == '/'))
                    &&& !(r[i] == '\\' && i + 2 < r.len() && r[i + 1] == '\\')
                }
            &&& forall|m: Seq<char>, p: int|
                (m == "--path"@ || m == "--port"@ || m == "--pid"@ || m == "不支持的启动参数："@ || m
                    == "实际为："@) ==> !#[trigger] occurs_at(r, m, p)
        }) ==> sanitize_spec(r) == r,
{
    assert(MAX_REASON_CHARS == 600);
    if single_line(r) && r.len() <= 600 && (r.len() == 0 || (!is_ws(r[0]) && !is_ws(r.last()))) && (forall|
        i: int,
    |
        0 <= i < r.len() ==> {
            &&& !(is_ascii_alpha(#[trigger] r[i]) && i + 2 < r.len() && r[i + 1] == ':' && (r[i + 2] == '\\'
                || r[i + 2] == '/'))
            &&& !(r[i] == '\\' && i + 2 < r.len() && r[i + 1] == '\\')
        }) && (forall|m: Seq<char>, p: int|
        (m == "--path"@ || m == "--port"@ || m == "--pid"@ || m == "不支持的启动参数："@ || m == "实际为："@)
            ==> !#[trigger] occurs_at(r, m, p)) {
        let ms = sensitive_markers();
        reveal_strlit("--path");
        reveal_strlit("--port");
        reveal_strlit("--pid");
        reveal_strlit("不支持的启动参数：");
        reveal_strlit("实际为：");
        assert(ms.len() == 5);
        assert(one_line(r) =~= r);
        assert forall|k: int, p: int| 0 <= k < ms.len() && 0 <= p < r.len() implies !#[trigger] occurs_at(
            r,
            ms[k],
            p,
        ) by {
            assert(ms[k] == "--path"@ || ms[k] == "--port"@ || ms[k] == "--pid"@ || ms[k]
                == "不支持的启动参数："@ || ms[k] == "实际为："@);
        }
        lemma_cutoff_at_least(r, ms, r.len() as int);
        lemma_cutoff_bounds(r, ms);
        assert(trim_start(r) == r);
        assert(trim_end(r) == r);
        assert forall|i: int| !path_starts_at(r, i) by {}
        if first_path_from(r, 0) is Some {
            lemma_first_path_is_path(r, 0);
        }
    }
}

} // verus!

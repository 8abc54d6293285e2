//! Relations between processes in one snapshot: the ancestor chain of a
//! process and the whole process tree, built from `(pid, parent pid, name)`
//! entries without any further system query.
use std::collections::HashMap;

use vstd::multiset::Multiset;
use vstd::prelude::*;

use crate::model::error::AppError;
use crate::model::process::{ProcessCommandLine, ProcessInfo, ProcessSummary, ProcessTreeNode, ProcessTreeSnapshot};
use crate::text::{ascii_lower, ascii_lower_seq, chars_of};

verus! {

/// One entry of a process snapshot.
#[derive(Clone, Debug)]
pub struct SnapshotProcess {
    pub pid: u32,
    pub parent_pid: u32,
    pub name: String,
}

// ---------------------------------------------------------------------------
// Ancestor chain
// ---------------------------------------------------------------------------

/// `walk` is the walk from `pid` up through the parents found in `m`: it
/// starts at `pid`, each step goes to the non-zero parent, no PID repeats,
/// and it stops at a zero parent, at a parent missing from `m`, or at a
/// parent already visited. It is empty when `pid` is not in `m`.
pub open spec fn is_ancestor_walk(m: Map<u32, &SnapshotProcess>, pid: u32, walk: Seq<u32>) -> bool {
    if !m.contains_key(pid) {
        walk.len() == 0
    } else {
        &&& walk.len() >= 1
        &&& walk[0] == pid
        &&& forall|i: int| 0 <= i < walk.len() ==> m.contains_key(#[trigger] walk[i])
        &&& forall|i: int|
            0 <= i < walk.len() - 1 ==> m[#[trigger] walk[i]].parent_pid != 0 && walk[i + 1]
                == m[walk[i]].parent_pid
        &&& forall|i: int, j: int| 0 <= i < j < walk.len() ==> walk[i] != walk[j]
        &&& {
            let p = m[walk.last()].parent_pid;
            p == 0 || !m.contains_key(p) || walk.contains(p)
        }
    }
}

/// The chain matches the walk reversed: root first, the queried process
/// last, each entry carrying the PID and name from the snapshot and no path.
pub open spec fn chain_matches(
    m: Map<u32, &SnapshotProcess>,
    walk: Seq<u32>,
    chain: Seq<ProcessSummary>,
) -> bool {
    &&& chain.len() == walk.len()
    &&& forall|i: int|
        0 <= i < chain.len() ==> {
            let p = walk[walk.len() - 1 - i];
            &&& (#[trigger] chain[i]).pid == m[p].pid
            &&& chain[i].name@ == m[p].name@
            &&& chain[i].exe_path is None
        }
}

fn contains_pid(v: &Vec<u32>, x: u32) -> (b: bool)
    ensures
        b == v@.contains(x),
{
    let mut i: usize = 0;
    while i < v.len()
        invariant
            i <= v@.len(),
            forall|k: int| 0 <= k < i ==> v@[k] != x,
        decreases v.len() - i,
    {
        if v[i] == x {
            return true;
        }
        i = i + 1;
    }
    false
}

/// The chain of ancestors of `pid` in one snapshot, from the earliest
/// visible ancestor down to `pid` itself; a cycle in the snapshot ends the
/// walk at the first repeated PID.
pub fn build_parent_chain(pid: u32, by_pid: &HashMap<u32, &SnapshotProcess>) -> (chain: Vec<
    ProcessSummary,
>)
    ensures
        exists|walk: Seq<u32>|
            is_ancestor_walk(by_pid@, pid, walk) && chain_matches(by_pid@, walk, chain@),
{
    broadcast use vstd::std_specs::hash::group_hash_axioms;

    let ghost m = by_pid@;
    let mut walk: Vec<u32> = Vec::new();
    let mut reversed: Vec<ProcessSummary> = Vec::new();
    let mut cursor = pid;
    proof {
        assert(m.dom().finite());
    }
    loop
        invariant_except_break
            m == by_pid@,
            m.dom().finite(),
            reversed@.len() == walk@.len(),
            forall|i: int|
                0 <= i < reversed@.len() ==> {
                    &&& (#[trigger] reversed@[i]).pid == m[walk@[i]].pid
                    &&& reversed@[i].name@ == m[walk@[i]].name@
                    &&& reversed@[i].exe_path is None
                },
            walk@.len() == 0 ==> cursor == pid,
            walk@.len() > 0 ==> walk@[0] == pid,
            forall|i: int| 0 <= i < walk@.len() ==> m.contains_key(#[trigger] walk@[i]),
            forall|i: int|
                0 <= i < walk@.len() - 1 ==> m[#[trigger] walk@[i]].parent_pid != 0 && walk@[i
                    + 1] == m[walk@[i]].parent_pid,
            walk@.len() > 0 ==> m[walk@.last()].parent_pid != 0 && cursor == m[walk@.last()].parent_pid,
            walk@.no_duplicates(),
        ensures
            m == by_pid@,
            reversed@.len() == walk@.len(),
            forall|i: int|
                0 <= i < reversed@.len() ==> {
                    &&& (#[trigger] reversed@[i]).pid == m[walk@[i]].pid
                    &&& reversed@[i].name@ == m[walk@[i]].name@
                    &&& reversed@[i].exe_path is None
                },
            is_ancestor_walk(m, pid, walk@),
        decreases m.dom().len() - walk@.len(),
    {
        match by_pid.get(&cursor) {
            None => {
                proof {
                    if walk@.len() > 0 {
                        assert(!m.contains_key(m[walk@.last()].parent_pid));
                    }
                }
                break;
            },
            Some(process) => {
                if contains_pid(&walk, cursor) {
                    break;
                }
                let process: &SnapshotProcess = *process;
                assert(m[cursor] == process);
                reversed.push(
                    ProcessSummary { pid: process.pid, name: process.name.clone(), exe_path: None },
                );
                walk.push(cursor);
                proof {
                    assert(walk@.last() == cursor);
                    walk@.unique_seq_to_set();
                    assert(walk@.to_set().subset_of(m.dom())) by {
                        assert forall|x: u32| walk@.to_set().contains(x) implies m.dom().contains(
                            x,
                        ) by {
                            let k = choose|k: int| 0 <= k < walk@.len() && walk@[k] == x;
                            assert(m.contains_key(walk@[k]));
                        }
                    }
                    vstd::set_lib::lemma_len_subset(walk@.to_set(), m.dom());
                }
                if process.parent_pid == 0 {
                    break;
                }
                cursor = process.parent_pid;
            },
        }
    }
    let mut chain: Vec<ProcessSummary> = Vec::new();
    let mut k = reversed.len();
    while k > 0
        invariant
            k <= reversed@.len(),
            chain@.len() == reversed@.len() - k,
            forall|i: int|
                0 <= i < reversed@.len() ==> (#[trigger] reversed@[i]).exe_path is None,
            forall|i: int|
                0 <= i < chain@.len() ==> {
                    &&& (#[trigger] chain@[i]).pid == reversed@[reversed@.len() - 1 - i].pid
                    &&& chain@[i].name@ == reversed@[reversed@.len() - 1 - i].name@
                    &&& chain@[i].exe_path is None
                },
        decreases k,
    {
        k = k - 1;
        let entry = ProcessSummary {
            pid: reversed[k].pid,
            name: reversed[k].name.clone(),
            exe_path: None,
        };
        chain.push(entry);
    }
    proof {
        assert(chain_matches(m, walk@, chain@));
    }
    chain
}

// ---------------------------------------------------------------------------
// Whole tree
// ---------------------------------------------------------------------------

/// `pid` is the PID of some entry of the snapshot.
pub open spec fn is_visible(ps: Seq<SnapshotProcess>, pid: u32) -> bool {
    exists|j: int| 0 <= j < ps.len() && (#[trigger] ps[j]).pid == pid
}

/// Entry `i` is the first entry with its PID.
pub open spec fn first_with_pid(ps: Seq<SnapshotProcess>, i: int) -> bool {
    forall|j: int| 0 <= j < i ==> (#[trigger] ps[j]).pid != ps[i].pid
}

/// The parent recorded for entry `i`: its parent PID when that is non-zero
/// and visible in the snapshot.
pub open spec fn visible_parent(ps: Seq<SnapshotProcess>, i: int) -> Option<u32> {
    if ps[i].parent_pid != 0 && is_visible(ps, ps[i].parent_pid) {
        Some(ps[i].parent_pid)
    } else {
        None
    }
}

/// PIDs of the entries whose parent PID is `parent`, in snapshot order.
pub open spec fn child_pids(ps: Seq<SnapshotProcess>, parent: u32) -> Seq<u32>
    decreases ps.len(),
{
    if ps.len() == 0 {
        Seq::<u32>::empty()
    } else if ps.last().parent_pid == parent {
        child_pids(ps.drop_last(), parent).push(ps.last().pid)
    } else {
        child_pids(ps.drop_last(), parent)
    }
}

/// No pair of positions is out of ascending order.
pub open spec fn ascending(s: Seq<u32>) -> bool {
    forall|i: int, j: int| 0 <= i < j < s.len() ==> s[i] <= s[j]
}

/// The children a node of entry `i` lists, as a multiset: the children of
/// its PID for the first entry with that PID, none for a repeated PID.
pub open spec fn expected_children(ps: Seq<SnapshotProcess>, i: int) -> Multiset<u32> {
    if first_with_pid(ps, i) {
        child_pids(ps, ps[i].pid).to_multiset()
    } else {
        Multiset::<u32>::empty()
    }
}

/// The tree node describes entry `i` of the snapshot.
pub open spec fn node_describes(ps: Seq<SnapshotProcess>, i: int, node: ProcessTreeNode) -> bool {
    &&& node.pid == ps[i].pid
    &&& node.parent_pid == visible_parent(ps, i)
    &&& node.name@ == ps[i].name@
    &&& ascending(node.children@)
    &&& node.children@.to_multiset() == expected_children(ps, i)
}

/// Lexicographic order of character sequences by scalar value.
pub open spec fn lex_lt(a: Seq<char>, b: Seq<char>) -> bool
    decreases a.len(),
{
    if a.len() == 0 {
        b.len() > 0
    } else if b.len() == 0 {
        false
    } else if a[0] != b[0] {
        (a[0] as u32) < (b[0] as u32)
    } else {
        lex_lt(a.drop_first(), b.drop_first())
    }
}

/// Sort order of tree nodes: lower-cased name, then PID.
pub open spec fn node_lt(a: ProcessTreeNode, b: ProcessTreeNode) -> bool {
    let x = ascii_lower_seq(a.name@);
    let y = ascii_lower_seq(b.name@);
    lex_lt(x, y) || (x == y && a.pid < b.pid)
}

/// The two nodes sort at the same place: same lower-cased name and PID.
pub open spec fn same_sort_key(a: ProcessTreeNode, b: ProcessTreeNode) -> bool {
    ascii_lower_seq(a.name@) == ascii_lower_seq(b.name@) && a.pid == b.pid
}

/// No pair of nodes is out of order.
pub open spec fn nodes_sorted(s: Seq<ProcessTreeNode>) -> bool {
    forall|i: int, j: int| 0 <= i < j < s.len() ==> !node_lt(#[trigger] s[j], #[trigger] s[i])
}

/// `perm` is a permutation of `0..n`.
pub open spec fn is_permutation(perm: Seq<int>, n: int) -> bool {
    &&& perm.len() == n
    &&& forall|k: int| 0 <= k < n ==> 0 <= #[trigger] perm[k] < n
    &&& forall|a: int, b: int| 0 <= a < b < n ==> perm[a] != perm[b]
}

/// PIDs of the nodes without a visible parent, in node order.
pub open spec fn root_pids(nodes: Seq<ProcessTreeNode>) -> Seq<u32>
    decreases nodes.len(),
{
    if nodes.len() == 0 {
        Seq::<u32>::empty()
    } else if nodes.last().parent_pid is None {
        root_pids(nodes.drop_last()).push(nodes.last().pid)
    } else {
        root_pids(nodes.drop_last())
    }
}

pub(crate) proof fn lemma_lex_irreflexive(a: Seq<char>)
    ensures
        !lex_lt(a, a),
    decreases a.len(),
{
    if a.len() > 0 {
        lemma_lex_irreflexive(a.drop_first());
    }
}

pub(crate) proof fn lemma_lex_transitive(a: Seq<char>, b: Seq<char>, c: Seq<char>)
    requires
        lex_lt(a, b),
        lex_lt(b, c),
    ensures
        lex_lt(a, c),
    decreases a.len(),
{
    if a.len() > 0 && b.len() > 0 && c.len() > 0 {
        if a[0] == b[0] && b[0] == c[0] {
            lemma_lex_transitive(a.drop_first(), b.drop_first(), c.drop_first());
        }
    }
}

proof fn lemma_node_lt_irreflexive(a: ProcessTreeNode)
    ensures
        !node_lt(a, a),
{
    lemma_lex_irreflexive(ascii_lower_seq(a.name@));
}

proof fn lemma_node_lt_transitive(a: ProcessTreeNode, b: ProcessTreeNode, c: ProcessTreeNode)
    requires
        node_lt(a, b),
        node_lt(b, c),
    ensures
        node_lt(a, c),
{
    let x = ascii_lower_seq(a.name@);
    let y = ascii_lower_seq(b.name@);
    let z = ascii_lower_seq(c.name@);
    if lex_lt(x, y) && lex_lt(y, z) {
        lemma_lex_transitive(x, y, z);
    }
}

/// The lower-cased characters of a name.
fn lower_chars(s: &str) -> (v: Vec<char>)
    ensures
        v@ == ascii_lower_seq(s@),
{
    let chars = chars_of(s);
    let mut v: Vec<char> = Vec::new();
    let mut i: usize = 0;
    while i < chars.len()
        invariant
            i <= chars@.len(),
            v@ =~= ascii_lower_seq(chars@.take(i as int)),
        decreases chars.len() - i,
    {
        let c = chars[i];
        let l = if 'A' <= c && c <= 'Z' {
            ((c as u32) + 32) as u8 as char
        } else {
            c
        };
        assert(l == ascii_lower(c));
        v.push(l);
        i = i + 1;
    }
    assert(chars@.take(i as int) =~= chars@);
    v
}

/// `lex_lt` on two character vectors.
pub(crate) fn lex_less(a: &Vec<char>, b: &Vec<char>) -> (r: bool)
    ensures
        r == lex_lt(a@, b@),
{
    let mut i: usize = 0;
    assert(a@.skip(0) =~= a@);
    assert(b@.skip(0) =~= b@);
    while i < a.len() && i < b.len() && a[i] == b[i]
        invariant
            i <= a@.len(),
            i <= b@.len(),
            lex_lt(a@, b@) == lex_lt(a@.skip(i as int), b@.skip(i as int)),
        decreases a.len() - i,
    {
        proof {
            assert(a@.skip(i as int).drop_first() =~= a@.skip(i + 1));
            assert(b@.skip(i as int).drop_first() =~= b@.skip(i + 1));
        }
        i = i + 1;
    }
    proof {
        if i < a@.len() && i < b@.len() {
            assert(a@.skip(i as int)[0] == a@[i as int]);
            assert(b@.skip(i as int)[0] == b@[i as int]);
        }
    }
    if i == a.len() {
        i < b.len()
    } else if i == b.len() {
        false
    } else {
        (a[i] as u32) < (b[i] as u32)
    }
}

/// Ascending order of a vector of PIDs.
fn sort_pids(v: Vec<u32>) -> (r: Vec<u32>)
    ensures
        ascending(r@),
        r@.to_multiset() == v@.to_multiset(),
{
    let mut out: Vec<u32> = Vec::new();
    let mut i: usize = 0;
    assert(out@ =~= v@.take(0));
    while i < v.len()
        invariant
            i <= v@.len(),
            ascending(out@),
            out@.to_multiset() == v@.take(i as int).to_multiset(),
        decreases v.len() - i,
    {
        let x = v[i];
        let mut k: usize = 0;
        while k < out.len() && out[k] <= x
            invariant
                k <= out@.len(),
                forall|j: int| 0 <= j < k ==> out@[j] <= x,
            decreases out.len() - k,
        {
            k = k + 1;
        }
        let ghost before = out@;
        out.insert(k, x);
        proof {
            assert(v@.take(i + 1) =~= v@.take(i as int).push(x));
            vstd::seq_lib::to_multiset_build(v@.take(i as int), x);
            vstd::seq_lib::to_multiset_insert(before, k as int, x);
            assert forall|a: int, b: int| 0 <= a < b < out@.len() implies out@[a] <= out@[b] by {
                if a < k && b == k {
                } else if a == k && b > k {
                    assert(before[k as int] > x);
                    assert(before[k as int] <= before[b - 1]);
                } else if a < k && b > k {
                    assert(before[a] <= before[b - 1]);
                } else {
                }
            }
        }
        i = i + 1;
    }
    assert(v@.take(i as int) =~= v@);
    out
}

/// The sorted children of a PID: all entries whose parent is `parent`.
fn children_of(processes: &Vec<SnapshotProcess>, parent: u32) -> (r: Vec<u32>)
    ensures
        ascending(r@),
        r@.to_multiset() == child_pids(processes@, parent).to_multiset(),
{
    let mut found: Vec<u32> = Vec::new();
    let mut j: usize = 0;
    while j < processes.len()
        invariant
            j <= processes@.len(),
            found@ == child_pids(processes@.take(j as int), parent),
        decreases processes.len() - j,
    {
        proof {
            assert(processes@.take(j + 1).drop_last() =~= processes@.take(j as int));
        }
        if processes[j].parent_pid == parent {
            found.push(processes[j].pid);
        }
        j = j + 1;
    }
    assert(processes@.take(j as int) =~= processes@);
    sort_pids(found)
}

/// Whether some entry has PID `pid`.
fn pid_visible(processes: &Vec<SnapshotProcess>, pid: u32) -> (b: bool)
    ensures
        b == is_visible(processes@, pid),
{
    let mut j: usize = 0;
    while j < processes.len()
        invariant
            j <= processes@.len(),
            forall|k: int| 0 <= k < j ==> (#[trigger] processes@[k]).pid != pid,
        decreases processes.len() - j,
    {
        if processes[j].pid == pid {
            return true;
        }
        j = j + 1;
    }
    false
}

/// Whether entry `i` is the first with its PID.
fn is_first_with_pid(processes: &Vec<SnapshotProcess>, i: usize) -> (b: bool)
    requires
        i < processes@.len(),
    ensures
        b == first_with_pid(processes@, i as int),
{
    let mut j: usize = 0;
    while j < i
        invariant
            i < processes@.len(),
            j <= i,
            forall|k: int| 0 <= k < j ==> (#[trigger] processes@[k]).pid != processes@[i as int].pid,
        decreases i - j,
    {
        if processes[j].pid == processes[i].pid {
            return false;
        }
        j = j + 1;
    }
    true
}

/// Builds the process tree of one snapshot: one node per entry, its parent
/// when that parent is visible and non-zero, its children in ascending PID
/// order, all nodes ordered by lower-cased name then PID, and the roots
/// (nodes without a visible parent) in the same order. Entries that sort
/// at the same place keep their order in the snapshot.
pub fn build_process_tree(processes: Vec<SnapshotProcess>) -> (tree: ProcessTreeSnapshot)
    ensures
        tree.nodes@.len() == processes@.len(),
        nodes_sorted(tree.nodes@),
        exists|perm: Seq<int>|
            {
                &&& is_permutation(perm, processes@.len() as int)
                &&& forall|k: int|
                    0 <= k < tree.nodes@.len() ==> node_describes(
                        processes@,
                        #[trigger] perm[k],
                        tree.nodes@[k],
                    )
                &&& forall|a: int, b: int|
                    0 <= a < b < tree.nodes@.len() && same_sort_key(
                        #[trigger] tree.nodes@[a],
                        #[trigger] tree.nodes@[b],
                    ) ==> perm[a] < perm[b]
            },
        tree.roots@ == root_pids(tree.nodes@),
{
    let ghost ps = processes@;
    let n = processes.len();
    let mut nodes: Vec<ProcessTreeNode> = Vec::new();
    let mut keys: Vec<Vec<char>> = Vec::new();
    let ghost mut perm: Seq<int> = Seq::empty();
    let mut i: usize = 0;
    while i < n
        invariant
            n == ps.len(),
            ps == processes@,
            i <= n,
            nodes@.len() == i,
            keys@.len() == i,
            perm.len() == i,
            forall|k: int| 0 <= k < i ==> 0 <= #[trigger] perm[k] < i,
            forall|a: int, b: int| 0 <= a < b < i ==> perm[a] != perm[b],
            forall|k: int| 0 <= k < i ==> node_describes(ps, #[trigger] perm[k], nodes@[k]),
            forall|k: int| 0 <= k < i ==> (#[trigger] keys@[k])@ == ascii_lower_seq(nodes@[k].name@),
            nodes_sorted(nodes@),
            forall|a: int, b: int|
                0 <= a < b < i && same_sort_key(#[trigger] nodes@[a], #[trigger] nodes@[b]) ==> perm[a]
                    < perm[b],
        decreases n - i,
    {
        let p = &processes[i];
        let parent = if p.parent_pid != 0 && pid_visible(&processes, p.parent_pid) {
            Some(p.parent_pid)
        } else {
            None
        };
        let children = if is_first_with_pid(&processes, i) {
            children_of(&processes, p.pid)
        } else {
            Vec::new()
        };
        proof {
            if !first_with_pid(ps, i as int) {
                assert(children@ =~= Seq::<u32>::empty());
                lemma_empty_multiset();
            }
        }
        let node = ProcessTreeNode { pid: p.pid, parent_pid: parent, name: p.name.clone(), children };
        let key = lower_chars(p.name.as_str());
        assert(node_describes(ps, i as int, node));
        let mut k: usize = 0;
        while k < nodes.len() && !(lex_less(&key, &keys[k]) || (chars_equal_vec(&key, &keys[k])
            && node.pid < nodes[k].pid))
            invariant
                k <= nodes@.len(),
                nodes@.len() == keys@.len(),
                key@ == ascii_lower_seq(node.name@),
                forall|j: int| 0 <= j < keys@.len() ==> (#[trigger] keys@[j])@ == ascii_lower_seq(nodes@[j].name@),
                forall|j: int| 0 <= j < k ==> !node_lt(node, #[trigger] nodes@[j]),
            decreases nodes.len() - k,
        {
            k = k + 1;
        }
        let ghost before = nodes@;
        let ghost before_keys = keys@;
        proof {
            assert(k < before.len() ==> node_lt(node, before[k as int]));
            assert forall|a: int, b: int|
                0 <= a < b < before.len() + 1 implies !node_lt(
                #[trigger] before.insert(k as int, node)[b],
                #[trigger] before.insert(k as int, node)[a],
            ) by {
                let s = before.insert(k as int, node);
                if a < k && b == k {
                } else if a == k && b > k {
                    if node_lt(s[b], node) {
                        lemma_node_lt_transitive(s[b], node, before[k as int]);
                        if b - 1 == k {
                            lemma_node_lt_irreflexive(before[k as int]);
                        }
                    }
                } else if a < k && b > k {
                    assert(s[a] == before[a]);
                    assert(s[b] == before[b - 1]);
                } else if b < k {
                    assert(s[a] == before[a]);
                    assert(s[b] == before[b]);
                } else {
                    assert(s[a] == before[a - 1]);
                    assert(s[b] == before[b - 1]);
                }
            }
        }
        nodes.insert(k, node);
        keys.insert(k, key);
        proof {
            let ghost before_perm = perm;
            perm = perm.insert(k as int, i as int);
            assert forall|a: int, b: int|
                0 <= a < b < i + 1 && same_sort_key(#[trigger] nodes@[a], #[trigger] nodes@[b]) implies perm[a]
                < perm[b] by {
                if a == k && b > k {
                    assert(nodes@[b] == before[b - 1]);
                    assert(node_lt(node, before[k as int]));
                    assert(node_lt(before[b - 1], before[k as int]));
                    if b - 1 == k {
                        lemma_node_lt_irreflexive(before[k as int]);
                    }
                } else if a < k && b == k {
                    assert(perm[a] == before_perm[a]);
                } else if a < k && b > k {
                    assert(nodes@[a] == before[a] && nodes@[b] == before[b - 1]);
                } else if b < k {
                    assert(nodes@[a] == before[a] && nodes@[b] == before[b]);
                } else {
                    assert(nodes@[a] == before[a - 1] && nodes@[b] == before[b - 1]);
                }
            }
            assert forall|j: int| 0 <= j < i + 1 implies node_describes(ps, #[trigger] perm[j], nodes@[j]) by {
                if j < k {
                    assert(nodes@[j] == before[j]);
                } else if j > k {
                    assert(nodes@[j] == before[j - 1]);
                }
            }
            assert forall|j: int| 0 <= j < i + 1 implies (#[trigger] keys@[j])@ == ascii_lower_seq(nodes@[j].name@) by {
                if j < k {
                    assert(keys@[j] == before_keys[j]);
                    assert(nodes@[j] == before[j]);
                } else if j > k {
                    assert(keys@[j] == before_keys[j - 1]);
                    assert(nodes@[j] == before[j - 1]);
                }
            }
        }
        i = i + 1;
    }
    let mut roots: Vec<u32> = Vec::new();
    let mut r: usize = 0;
    while r < nodes.len()
        invariant
            r <= nodes@.len(),
            roots@ == root_pids(nodes@.take(r as int)),
        decreases nodes.len() - r,
    {
        proof {
            assert(nodes@.take(r + 1).drop_last() =~= nodes@.take(r as int));
        }
        if nodes[r].parent_pid.is_none() {
            roots.push(nodes[r].pid);
        }
        r = r + 1;
    }
    assert(nodes@.take(r as int) =~= nodes@);
    proof {
        assert(is_permutation(perm, n as int));
        assert(forall|k: int|
            0 <= k < nodes@.len() ==> node_describes(processes@, #[trigger] perm[k], nodes@[k]));
    }
    ProcessTreeSnapshot { nodes, roots }
}

/// The multiset of an empty sequence is empty.
proof fn lemma_empty_multiset()
    ensures
        Seq::<u32>::empty().to_multiset() =~= Multiset::<u32>::empty(),
{
    broadcast use vstd::seq_lib::group_to_multiset_ensures;
    broadcast use vstd::multiset::group_multiset_properties;

    assert(Seq::<u32>::empty().to_multiset().len() == 0);
}

/// Equality of two character vectors.
fn chars_equal_vec(a: &Vec<char>, b: &Vec<char>) -> (r: bool)
    ensures
        r == (a@ == b@),
{
    crate::text::chars_equal(a, b)
}

/// The executable names whose processes must never be ended, compared
/// without regard to ASCII case.
pub open spec fn is_protected_name(lower: Seq<char>) -> bool {
    ||| lower == "system"@
    ||| lower == "registry"@
    ||| lower == "smss.exe"@
    ||| lower == "csrss.exe"@
    ||| lower == "wininit.exe"@
    ||| lower == "winlogon.exe"@
    ||| lower == "services.exe"@
    ||| lower == "lsass.exe"@
}

/// Whether a process of this executable name is a critical system process.
pub fn is_protected_process(name: &str) -> (b: bool)
    ensures
        b == is_protected_name(ascii_lower_seq(name@)),
{
    let lower = lower_chars(name);
    let candidates: [&str; 8] = [
        "system",
        "registry",
        "smss.exe",
        "csrss.exe",
        "wininit.exe",
        "winlogon.exe",
        "services.exe",
        "lsass.exe",
    ];
    let mut found = false;
    let mut i: usize = 0;
    while i < 8
        invariant
            i <= 8,
            candidates@ == seq![
                "system",
                "registry",
                "smss.exe",
                "csrss.exe",
                "wininit.exe",
                "winlogon.exe",
                "services.exe",
                "lsass.exe",
            ],
            found == exists|j: int| 0 <= j < i && lower@ == (#[trigger] candidates@[j])@,
        decreases 8 - i,
    {
        let candidate = chars_of(candidates[i]);
        if chars_equal_vec(&lower, &candidate) {
            found = true;
        }
        i = i + 1;
    }
    proof {
        if found {
            let j = choose|j: int| 0 <= j < 8 && lower@ == (#[trigger] candidates@[j])@;
            assert(is_protected_name(lower@));
        } else {
            assert(lower@ != candidates@[0]@);
            assert(lower@ != candidates@[1]@);
            assert(lower@ != candidates@[2]@);
            assert(lower@ != candidates@[3]@);
            assert(lower@ != candidates@[4]@);
            assert(lower@ != candidates@[5]@);
            assert(lower@ != candidates@[6]@);
            assert(lower@ != candidates@[7]@);
        }
    }
    found
}

/// Whether the snapshot `processes` holds the process `pid`.
pub fn process_in_snapshot(pid: u32, processes: &Vec<SnapshotProcess>) -> (b: bool)
    ensures
        b == exists|i: int| 0 <= i < processes@.len() && (#[trigger] processes@[i]).pid == pid,
{
    let mut i: usize = 0;
    while i < processes.len()
        invariant
            i <= processes@.len(),
            forall|j: int| 0 <= j < i ==> (#[trigger] processes@[j]).pid != pid,
        decreases processes.len() - i,
    {
        if processes[i].pid == pid {
            return true;
        }
        i = i + 1;
    }
    false
}

/// A query of `pid` goes on only while the process is in the snapshot; a
/// process missing from it has exited, and the error names the PID asked for.
pub fn require_present(pid: u32, processes: &Vec<SnapshotProcess>) -> (r: Result<(), AppError>)
    ensures
        (exists|i: int| 0 <= i < processes@.len() && (#[trigger] processes@[i]).pid == pid) <==> r is Ok,
        r is Err ==> r == Err::<(), AppError>(AppError::ProcessExited(pid)),
{
    if process_in_snapshot(pid, processes) {
        Ok(())
    } else {
        Err(AppError::ProcessExited(pid))
    }
}

/// PIDs up to 4 belong to the system and are never ended.
pub fn check_terminable_pid(pid: u32) -> (r: Result<(), AppError>)
    ensures
        pid > 4 <==> r is Ok,
        r is Err ==> (r matches Err(AppError::InvalidInput(m)) && m@ == "系统保留 PID 不允许结束。"@),
{
    if pid <= 4 {
        Err(AppError::InvalidInput(crate::text::owned("系统保留 PID 不允许结束。")))
    } else {
        Ok(())
    }
}

/// A critical system process is never ended; the refusal names it.
pub fn check_terminable_name(name: &str) -> (r: Result<(), AppError>)
    ensures
        !is_protected_name(ascii_lower_seq(name@)) <==> r is Ok,
        r is Err ==> (r matches Err(AppError::InvalidInput(m)) && m@ == "系统关键进程 "@ + name@ + " 不允许结束。"@),
{
    if is_protected_process(name) {
        let mut message = crate::text::owned("系统关键进程 ");
        crate::text::push_str(&mut message, name);
        crate::text::push_str(&mut message, " 不允许结束。");
        Err(AppError::InvalidInput(message))
    } else {
        Ok(())
    }
}

/// The key a child is compared by: its PID and name.
pub open spec fn summary_key(s: ProcessSummary) -> (u32, Seq<char>) {
    (s.pid, s.name@)
}

/// PID and name of the entries of `ps` whose parent is `parent`, in snapshot
/// order.
pub open spec fn child_keys(ps: Seq<SnapshotProcess>, parent: u32) -> Seq<(u32, Seq<char>)>
    decreases ps.len(),
{
    if ps.len() == 0 {
        Seq::empty()
    } else {
        let rest = child_keys(ps.drop_last(), parent);
        if ps.last().parent_pid == parent {
            rest.push((ps.last().pid, ps.last().name@))
        } else {
            rest
        }
    }
}

/// The children of `pid` are its direct children in the snapshot, in
/// ascending PID order, without paths.
pub open spec fn children_describe(children: Seq<ProcessSummary>, ps: Seq<SnapshotProcess>, pid: u32) -> bool {
    &&& forall|i: int| 0 <= i < children.len() ==> (#[trigger] children[i]).exe_path is None
    &&& forall|a: int, b: int| 0 <= a < b < children.len() ==> (#[trigger] children[a]).pid <= (
    #[trigger] children[b]).pid
    &&& children.map_values(|c: ProcessSummary| summary_key(c)).to_multiset() == child_keys(ps, pid).to_multiset()
}

/// The direct children of `pid` in the snapshot, by ascending PID.
pub fn child_summaries(pid: u32, processes: &Vec<SnapshotProcess>) -> (children: Vec<ProcessSummary>)
    ensures
        children_describe(children@, processes@, pid),
{
    let mut out: Vec<ProcessSummary> = Vec::new();
    let mut j: usize = 0;
    assert(out@.map_values(|c: ProcessSummary| summary_key(c)) =~= child_keys(processes@.take(0), pid));
    while j < processes.len()
        invariant
            j <= processes@.len(),
            forall|i: int| 0 <= i < out@.len() ==> (#[trigger] out@[i]).exe_path is None,
            forall|a: int, b: int| 0 <= a < b < out@.len() ==> (#[trigger] out@[a]).pid <= (#[trigger] out@[b]).pid,
            out@.map_values(|c: ProcessSummary| summary_key(c)).to_multiset() == child_keys(
                processes@.take(j as int),
                pid,
            ).to_multiset(),
        decreases processes.len() - j,
    {
        proof {
            assert(processes@.take(j + 1).drop_last() =~= processes@.take(j as int));
            assert(processes@.take(j + 1).last() == processes@[j as int]);
        }
        if processes[j].parent_pid == pid {
            let child = ProcessSummary { pid: processes[j].pid, name: processes[j].name.clone(), exe_path: None };
            let mut k: usize = 0;
            while k < out.len() && out[k].pid <= child.pid
                invariant
                    k <= out@.len(),
                    forall|i: int| 0 <= i < k ==> (#[trigger] out@[i]).pid <= child.pid,
                decreases out.len() - k,
            {
                k = k + 1;
            }
            let ghost before = out@;
            let ghost key = summary_key(child);
            out.insert(k, child);
            proof {
                let f = |c: ProcessSummary| summary_key(c);
                assert(out@.map_values(f) =~= before.map_values(f).insert(k as int, key));
                vstd::seq_lib::to_multiset_insert(before.map_values(f), k as int, key);
                let prev = child_keys(processes@.take(j as int), pid);
                assert(child_keys(processes@.take(j + 1), pid) == prev.push(key));
                vstd::seq_lib::to_multiset_build(prev, key);
                assert forall|a: int, b: int| 0 <= a < b < out@.len() implies (#[trigger] out@[a]).pid <= (
                #[trigger] out@[b]).pid by {
                    if a < k && b == k {
                    } else if a == k && b > k {
                        assert(before[k as int].pid > key.0);
                        assert(before[k as int].pid <= before[b - 1].pid);
                    } else if a < k && b > k {
                        assert(before[a].pid <= before[b - 1].pid);
                    } else if a > k {
                        assert(before[a - 1].pid <= before[b - 1].pid);
                    } else {
                    }
                }
            }
        }
        j = j + 1;
    }
    assert(processes@.take(j as int) =~= processes@);
    out
}

/// The summary of `pid` from a snapshot, with the path read for it; a process
/// missing from the snapshot has exited.
pub fn process_summary_from_snapshot(pid: u32, processes: &Vec<SnapshotProcess>, exe_path: Option<String>) -> (r:
    Result<ProcessSummary, AppError>)
    ensures
        match r {
            Ok(summary) => exists|i: int|
                0 <= i < processes@.len() && (#[trigger] processes@[i]).pid == pid && (forall|k: int|
                    0 <= k < i ==> (#[trigger] processes@[k]).pid != pid) && summary.pid == pid && summary.name@
                    == processes@[i].name@ && summary.exe_path == exe_path,
            Err(e) => e == AppError::ProcessExited(pid) && forall|i: int|
                0 <= i < processes@.len() ==> (#[trigger] processes@[i]).pid != pid,
        },
{
    let mut i: usize = 0;
    while i < processes.len()
        invariant
            i <= processes@.len(),
            forall|k: int| 0 <= k < i ==> (#[trigger] processes@[k]).pid != pid,
        decreases processes.len() - i,
    {
        if processes[i].pid == pid {
            let summary = ProcessSummary { pid, name: processes[i].name.clone(), exe_path };
            assert(processes@[i as int].pid == pid);
            return Ok(summary);
        }
        i = i + 1;
    }
    Err(AppError::ProcessExited(pid))
}

/// The details of `pid` from one snapshot, indexed by PID in `by_pid`: its
/// parent (none for a zero parent), its name, the chain of its ancestors and
/// its direct children by ascending PID, with the path and start time read
/// for it; the paths of the chain and the children are left to be filled in.
/// A process missing from the snapshot has exited.
pub fn process_info_from_snapshot(
    pid: u32,
    processes: &Vec<SnapshotProcess>,
    by_pid: &HashMap<u32, &SnapshotProcess>,
    exe_path: Option<String>,
    started_at: Option<String>,
) -> (r: Result<ProcessInfo, AppError>)
    ensures
        !by_pid@.contains_key(pid) <==> r is Err,
        r is Err ==> r == Err::<ProcessInfo, AppError>(AppError::ProcessExited(pid)),
        r matches Ok(info) ==> {
            let current = by_pid@[pid];
            &&& info.pid == pid
            &&& info.parent_pid == (if current.parent_pid != 0 {
                Some(current.parent_pid)
            } else {
                None
            })
            &&& info.name@ == current.name@
            &&& info.exe_path == exe_path
            &&& info.command_line is None
            &&& info.started_at == started_at
            &&& exists|walk: Seq<u32>| is_ancestor_walk(by_pid@, pid, walk) && chain_matches(
                by_pid@,
                walk,
                info.parent_chain@,
            )
            &&& children_describe(info.children@, processes@, pid)
        },
{
    broadcast use vstd::std_specs::hash::group_hash_axioms;

    let current: &SnapshotProcess = match by_pid.get(&pid) {
        None => return Err(AppError::ProcessExited(pid)),
        Some(found) => *found,
    };
    let parent_pid = if current.parent_pid != 0 {
        Some(current.parent_pid)
    } else {
        None
    };
    let name = current.name.clone();
    let parent_chain = build_parent_chain(pid, by_pid);
    let children = child_summaries(pid, processes);
    Ok(
        ProcessInfo {
            pid,
            parent_pid,
            name,
            exe_path,
            command_line: None,
            started_at,
            parent_chain,
            children,
        },
    )
}

// ---------------------------------------------------------------------------
// Indexing a snapshot by PID
// ---------------------------------------------------------------------------

/// The index of the last entry of `ps` with PID `pid`, or -1 where no entry
/// has it: collecting a snapshot by PID keeps the last entry of each PID.
pub open spec fn last_index_of(ps: Seq<SnapshotProcess>, pid: u32) -> int
    decreases ps.len(),
{
    if ps.len() == 0 {
        -1
    } else if ps.last().pid == pid {
        ps.len() - 1
    } else {
        last_index_of(ps.drop_last(), pid)
    }
}

proof fn lemma_last_index_bounds(ps: Seq<SnapshotProcess>, pid: u32)
    ensures
        -1 <= last_index_of(ps, pid) < ps.len(),
        last_index_of(ps, pid) >= 0 ==> ps[last_index_of(ps, pid)].pid == pid,
    decreases ps.len(),
{
    if ps.len() > 0 && ps.last().pid != pid {
        lemma_last_index_bounds(ps.drop_last(), pid);
    }
}

proof fn lemma_last_index_step(ps: Seq<SnapshotProcess>, i: int, pid: u32)
    requires
        0 <= i < ps.len(),
    ensures
        last_index_of(ps.take(i + 1), pid) == (if ps[i].pid == pid {
            i
        } else {
            last_index_of(ps.take(i), pid)
        }),
{
    assert(ps.take(i + 1).drop_last() =~= ps.take(i));
}

/// The entries of a snapshot indexed by PID; where a PID occurs twice, the
/// later entry is kept.
pub fn index_by_pid(processes: &Vec<SnapshotProcess>) -> (by_pid: HashMap<u32, &SnapshotProcess>)
    ensures
        forall|pid: u32|
            #![trigger by_pid@.contains_key(pid)]
            (by_pid@.contains_key(pid) <==> last_index_of(processes@, pid) >= 0) && (
            by_pid@.contains_key(pid) ==> *by_pid@[pid] == processes@[last_index_of(
                processes@,
                pid,
            )]),
{
    broadcast use vstd::std_specs::hash::group_hash_axioms;

    let mut by_pid: HashMap<u32, &SnapshotProcess> = HashMap::new();
    let mut i: usize = 0;
    while i < processes.len()
        invariant
            i <= processes.len(),
            forall|pid: u32|
                #![trigger by_pid@.contains_key(pid)]
                (by_pid@.contains_key(pid) <==> last_index_of(processes@.take(i as int), pid) >= 0)
                    && (by_pid@.contains_key(pid) ==> *by_pid@[pid] == processes@[last_index_of(
                    processes@.take(i as int),
                    pid,
                )]),
        decreases processes.len() - i,
    {
        let entry: &SnapshotProcess = &processes[i];
        by_pid.insert(entry.pid, entry);
        proof {
            assert forall|pid: u32|
                #![trigger by_pid@.contains_key(pid)]
                (by_pid@.contains_key(pid) <==> last_index_of(
                    processes@.take(i + 1),
                    pid,
                ) >= 0) && (by_pid@.contains_key(pid) ==> *by_pid@[pid] == processes@[last_index_of(
                    processes@.take(i + 1),
                    pid,
                )]) by {
                lemma_last_index_step(processes@, i as int, pid);
                lemma_last_index_bounds(processes@.take(i as int), pid);
            }
        }
        i = i + 1;
    }
    proof {
        assert(processes@.take(processes@.len() as int) =~= processes@);
    }
    by_pid
}

/// The name of each PID of a snapshot; where a PID occurs twice, the later
/// entry's name is kept.
pub fn process_names(processes: &Vec<SnapshotProcess>) -> (names: HashMap<u32, String>)
    ensures
        forall|pid: u32|
            #![trigger names@.contains_key(pid)]
            (names@.contains_key(pid) <==> last_index_of(processes@, pid) >= 0) && (
            names@.contains_key(pid) ==> names@[pid]@ == processes@[last_index_of(
                processes@,
                pid,
            )].name@),
{
    broadcast use vstd::std_specs::hash::group_hash_axioms;

    let mut names: HashMap<u32, String> = HashMap::new();
    let mut i: usize = 0;
    while i < processes.len()
        invariant
            i <= processes.len(),
            forall|pid: u32|
                #![trigger names@.contains_key(pid)]
                (names@.contains_key(pid) <==> last_index_of(processes@.take(i as int), pid) >= 0)
                    && (names@.contains_key(pid) ==> names@[pid]@ == processes@[last_index_of(
                    processes@.take(i as int),
                    pid,
                )].name@),
        decreases processes.len() - i,
    {
        let entry: &SnapshotProcess = &processes[i];
        names.insert(entry.pid, entry.name.clone());
        proof {
            assert forall|pid: u32|
                #![trigger names@.contains_key(pid)]
                (names@.contains_key(pid) <==> last_index_of(processes@.take(i + 1), pid) >= 0)
                    && (names@.contains_key(pid) ==> names@[pid]@ == processes@[last_index_of(
                    processes@.take(i + 1),
                    pid,
                )].name@) by {
                lemma_last_index_step(processes@, i as int, pid);
                lemma_last_index_bounds(processes@.take(i as int), pid);
            }
        }
        i = i + 1;
    }
    proof {
        assert(processes@.take(processes@.len() as int) =~= processes@);
    }
    names
}

/// The answer to a command-line query of `pid`, given what the query read
/// and, where it read no command line, whether a fresh snapshot still holds
/// the process: a query reads nothing both for a process that has exited
/// and for one that hides its command line, so only the snapshot tells the
/// two apart. Where a command line was read, `still_alive` is not looked at.
pub fn confirm_command_line(pid: u32, read: ProcessCommandLine, still_alive: bool) -> (r: Result<
    ProcessCommandLine,
    AppError,
>)
    ensures
        r is Err <==> (read.command_line is None && !still_alive),
        r is Err ==> r == Err::<ProcessCommandLine, AppError>(AppError::ProcessExited(pid)),
        r is Ok ==> r == Ok::<ProcessCommandLine, AppError>(read),
{
    if read.command_line.is_none() && !still_alive {
        Err(AppError::ProcessExited(pid))
    } else {
        Ok(read)
    }
}

} // verus!

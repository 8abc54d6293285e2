//! The latest request of each request key, and the rule that decides which
//! background events reach the tools.
//!
//! A tool may submit a new request before the previous one has answered; only
//! events of the latest request are routed, and a stale final event neither
//! reaches the tool nor clears the record of the newer request.
use vstd::prelude::*;

use crate::model::error::AppError;
use crate::text::{owned, str_equal};
use crate::worker::RequestId;

verus! {

/// The keys of `s` are pairwise different.
pub open spec fn keys_distinct(s: Seq<(String, RequestId)>) -> bool {
    forall|i: int, j: int| 0 <= i < j < s.len() ==> (#[trigger] s[i]).0@ != (#[trigger] s[j]).0@
}

/// `k` is the key of some entry of `s`.
pub open spec fn has_key(s: Seq<(String, RequestId)>, k: Seq<char>) -> bool {
    exists|i: int| 0 <= i < s.len() && (#[trigger] s[i]).0@ == k
}

/// The map from keys to identifiers that the entries `s` stand for.
pub open spec fn entries_view(s: Seq<(String, RequestId)>) -> Map<Seq<char>, RequestId> {
    Map::new(
        |k: Seq<char>| has_key(s, k),
        |k: Seq<char>| s[choose|i: int| 0 <= i < s.len() && (#[trigger] s[i]).0@ == k].1,
    )
}

/// With distinct keys, the entry at `i` is what the map holds for its key.
proof fn lemma_entry_in_view(s: Seq<(String, RequestId)>, i: int)
    requires
        keys_distinct(s),
        0 <= i < s.len(),
    ensures
        entries_view(s).contains_key(s[i].0@),
        entries_view(s)[s[i].0@] == s[i].1,
{
    let k = s[i].0@;
    assert(has_key(s, k));
    let j = choose|j: int| 0 <= j < s.len() && (#[trigger] s[j]).0@ == k;
    if j != i {
        if j < i {
            assert(s[j].0@ != s[i].0@);
        } else {
            assert(s[i].0@ != s[j].0@);
        }
    }
}

/// Appending an entry with a new key adds that key to the map.
proof fn lemma_view_push(s: Seq<(String, RequestId)>, e: (String, RequestId))
    requires
        keys_distinct(s),
        !has_key(s, e.0@),
    ensures
        keys_distinct(s.push(e)),
        entries_view(s.push(e)) == entries_view(s).insert(e.0@, e.1),
{
    let t = s.push(e);
    assert forall|i: int, j: int| 0 <= i < j < t.len() implies (#[trigger] t[i]).0@ != (#[trigger] t[j]).0@ by {
        if j == s.len() {
            if t[i].0@ == e.0@ {
                assert(s[i] == t[i]);
            }
        } else {
            assert(s[i] == t[i] && s[j] == t[j]);
        }
    }
    let m = entries_view(s).insert(e.0@, e.1);
    assert forall|k: Seq<char>| #[trigger] entries_view(t).contains_key(k) == m.contains_key(k) by {
        if has_key(t, k) {
            let i = choose|i: int| 0 <= i < t.len() && (#[trigger] t[i]).0@ == k;
            if i < s.len() {
                assert(s[i] == t[i]);
            }
        }
        if has_key(s, k) {
            let i = choose|i: int| 0 <= i < s.len() && (#[trigger] s[i]).0@ == k;
            assert(s[i] == t[i]);
        }
        if k == e.0@ {
            assert(t[s.len() as int] == e);
        }
    }
    assert forall|k: Seq<char>| #[trigger] entries_view(t).contains_key(k) implies entries_view(t)[k]
        == m[k] by {
        let i = choose|i: int| 0 <= i < t.len() && (#[trigger] t[i]).0@ == k;
        lemma_entry_in_view(t, i);
        if i < s.len() {
            assert(s[i] == t[i]);
            lemma_entry_in_view(s, i);
        }
    }
    assert(entries_view(t) =~= m);
}

/// Replacing the identifier of the entry at `i` replaces it in the map.
proof fn lemma_view_update(s: Seq<(String, RequestId)>, i: int, id: RequestId)
    requires
        keys_distinct(s),
        0 <= i < s.len(),
    ensures
        keys_distinct(s.update(i, (s[i].0, id))),
        entries_view(s.update(i, (s[i].0, id))) == entries_view(s).insert(s[i].0@, id),
{
    let t = s.update(i, (s[i].0, id));
    assert forall|a: int, b: int| 0 <= a < b < t.len() implies (#[trigger] t[a]).0@ != (#[trigger] t[b]).0@ by {
        assert(t[a].0@ == s[a].0@ && t[b].0@ == s[b].0@);
    }
    let m = entries_view(s).insert(s[i].0@, id);
    assert forall|k: Seq<char>| #[trigger] entries_view(t).contains_key(k) == m.contains_key(k) by {
        if has_key(t, k) {
            let j = choose|j: int| 0 <= j < t.len() && (#[trigger] t[j]).0@ == k;
            assert(s[j].0@ == k);
        }
        if has_key(s, k) {
            let j = choose|j: int| 0 <= j < s.len() && (#[trigger] s[j]).0@ == k;
            assert(t[j].0@ == k);
        }
        if k == s[i].0@ {
            assert(t[i].0@ == k);
        }
    }
    assert forall|k: Seq<char>| #[trigger] entries_view(t).contains_key(k) implies entries_view(t)[k]
        == m[k] by {
        let j = choose|j: int| 0 <= j < t.len() && (#[trigger] t[j]).0@ == k;
        lemma_entry_in_view(t, j);
        if j != i {
            assert(s[j] == t[j]);
            lemma_entry_in_view(s, j);
        }
    }
    assert(entries_view(t) =~= m);
}

/// Removing the entry at `i` removes its key from the map.
proof fn lemma_view_remove(s: Seq<(String, RequestId)>, i: int)
    requires
        keys_distinct(s),
        0 <= i < s.len(),
    ensures
        keys_distinct(s.remove(i)),
        entries_view(s.remove(i)) == entries_view(s).remove(s[i].0@),
{
    let t = s.remove(i);
    assert forall|a: int, b: int| 0 <= a < b < t.len() implies (#[trigger] t[a]).0@ != (#[trigger] t[b]).0@ by {
        let sa = if a < i { a } else { a + 1 };
        let sb = if b < i { b } else { b + 1 };
        assert(t[a] == s[sa] && t[b] == s[sb]);
        assert(s[sa].0@ != s[sb].0@);
    }
    let m = entries_view(s).remove(s[i].0@);
    assert forall|k: Seq<char>| #[trigger] entries_view(t).contains_key(k) == m.contains_key(k) by {
        if has_key(t, k) {
            let j = choose|j: int| 0 <= j < t.len() && (#[trigger] t[j]).0@ == k;
            let sj = if j < i { j } else { j + 1 };
            assert(t[j] == s[sj]);
            assert(s[sj].0@ == k);
            if k == s[i].0@ {
                if sj < i {
                    assert(s[sj].0@ != s[i].0@);
                } else {
                    assert(s[i].0@ != s[sj].0@);
                }
            }
        }
        if has_key(s, k) && k != s[i].0@ {
            let j = choose|j: int| 0 <= j < s.len() && (#[trigger] s[j]).0@ == k;
            if j < i {
                assert(t[j] == s[j]);
            } else {
                assert(t[j - 1] == s[j]);
            }
        }
    }
    assert forall|k: Seq<char>| #[trigger] entries_view(t).contains_key(k) implies entries_view(t)[k]
        == m[k] by {
        let j = choose|j: int| 0 <= j < t.len() && (#[trigger] t[j]).0@ == k;
        lemma_entry_in_view(t, j);
        let sj = if j < i { j } else { j + 1 };
        assert(t[j] == s[sj]);
        lemma_entry_in_view(s, sj);
    }
    assert(entries_view(t) =~= m);
}

/// The identifier of the latest request of each request key.
#[derive(Clone, Debug)]
pub struct LatestRequests {
    entries: Vec<(String, RequestId)>,
}

impl View for LatestRequests {
    type V = Map<Seq<char>, RequestId>;

    closed spec fn view(&self) -> Map<Seq<char>, RequestId> {
        entries_view(self.entries@)
    }
}

impl LatestRequests {
    /// Each key is recorded once.
    pub closed spec fn wf(&self) -> bool {
        keys_distinct(self.entries@)
    }

    /// No request is pending.
    pub fn new() -> (r: Self)
        ensures
            r.wf(),
            r@ == Map::<Seq<char>, RequestId>::empty(),
    {
        let r = LatestRequests { entries: Vec::new() };
        assert(r@ =~= Map::<Seq<char>, RequestId>::empty());
        r
    }

    /// The position of `key` among the entries.
    fn position(&self, key: &str) -> (r: Option<usize>)
        requires
            self.wf(),
        ensures
            match r {
                Some(i) => i < self.entries@.len() && self.entries@[i as int].0@ == key@,
                None => !has_key(self.entries@, key@),
            },
    {
        let mut i: usize = 0;
        while i < self.entries.len()
            invariant
                i <= self.entries@.len(),
                forall|j: int| 0 <= j < i ==> (#[trigger] self.entries@[j]).0@ != key@,
            decreases self.entries.len() - i,
        {
            if str_equal(self.entries[i].0.as_str(), key) {
                return Some(i);
            }
            i = i + 1;
        }
        None
    }

    /// The latest request recorded for `key`.
    pub fn get(&self, key: &str) -> (r: Option<RequestId>)
        requires
            self.wf(),
        ensures
            r == (if self@.contains_key(key@) {
                Some(self@[key@])
            } else {
                None
            }),
    {
        match self.position(key) {
            Some(i) => {
                proof {
                    lemma_entry_in_view(self.entries@, i as int);
                }
                Some(self.entries[i].1)
            },
            None => None,
        }
    }

    /// Whether a request is recorded for `key`.
    pub fn contains_key(&self, key: &str) -> (b: bool)
        requires
            self.wf(),
        ensures
            b == self@.contains_key(key@),
    {
        match self.position(key) {
            Some(i) => {
                proof {
                    lemma_entry_in_view(self.entries@, i as int);
                }
                true
            },
            None => false,
        }
    }

    /// Whether no request is recorded.
    pub fn is_empty(&self) -> (b: bool)
        requires
            self.wf(),
        ensures
            b == (self@ == Map::<Seq<char>, RequestId>::empty()),
    {
        if self.entries.len() == 0 {
            assert(self@ =~= Map::<Seq<char>, RequestId>::empty());
            true
        } else {
            proof {
                lemma_entry_in_view(self.entries@, 0);
                assert(!Map::<Seq<char>, RequestId>::empty().contains_key(self.entries@[0].0@));
            }
            false
        }
    }

    /// Records `id` as the latest request of `key`.
    pub fn insert(&mut self, key: &str, id: RequestId)
        requires
            old(self).wf(),
        ensures
            final(self).wf(),
            final(self)@ == old(self)@.insert(key@, id),
    {
        match self.position(key) {
            Some(i) => {
                let name = self.entries[i].0.clone();
                proof {
                    lemma_view_update(self.entries@, i as int, id);
                }
                self.entries.set(i, (name, id));
            },
            None => {
                let entry = (owned(key), id);
                proof {
                    lemma_view_push(self.entries@, entry);
                }
                self.entries.push(entry);
            },
        }
    }

    /// Forgets the request of `key`.
    pub fn remove(&mut self, key: &str)
        requires
            old(self).wf(),
        ensures
            final(self).wf(),
            final(self)@ == old(self)@.remove(key@),
    {
        match self.position(key) {
            Some(i) => {
                proof {
                    lemma_view_remove(self.entries@, i as int);
                }
                self.entries.remove(i);
            },
            None => {
                assert(self@.remove(key@) =~= self@);
            },
        }
    }
}

/// Whether an event of request `request_id` under `request_key` reaches its
/// tool: only events of the latest request do. A final event of the latest
/// request also ends it, so that later events of it are refused.
pub fn accept_task_event(
    latest_requests: &mut LatestRequests,
    request_key: &str,
    request_id: RequestId,
    is_finished: bool,
) -> (accepted: bool)
    requires
        old(latest_requests).wf(),
    ensures
        final(latest_requests).wf(),
        accepted == (old(latest_requests)@.contains_key(request_key@)
            && old(latest_requests)@[request_key@] == request_id),
        final(latest_requests)@ == (if accepted && is_finished {
            old(latest_requests)@.remove(request_key@)
        } else {
            old(latest_requests)@
        }),
{
    if latest_requests.get(request_key) != Some(request_id) {
        return false;
    }
    if is_finished {
        latest_requests.remove(request_key);
    }
    true
}

/// Takes note of a submission under `request_key`: a request that entered the
/// queue becomes the latest of its key. Returns whether the tool is busy: it
/// is after a submission that entered the queue, and after a refused one only
/// while an earlier request of the key is still pending.
pub fn record_dispatch(
    latest_requests: &mut LatestRequests,
    request_key: &str,
    submitted: &Result<RequestId, AppError>,
) -> (busy: bool)
    requires
        old(latest_requests).wf(),
    ensures
        final(latest_requests).wf(),
        match *submitted {
            Ok(id) => busy && final(latest_requests)@ == old(latest_requests)@.insert(request_key@, id),
            Err(_) => busy == old(latest_requests)@.contains_key(request_key@) && final(latest_requests)@ == old(
                latest_requests,
            )@,
        },
{
    match submitted {
        Ok(id) => {
            latest_requests.insert(request_key, *id);
            true
        },
        Err(_) => latest_requests.contains_key(request_key),
    }
}

/// After a request is recorded as the latest of its key, an event of any other
/// request under that key is refused and leaves the record in place, while an
/// event of that request is accepted; events of other keys are unaffected by
/// the recording.
pub proof fn lemma_latest_request_wins(
    before: Map<Seq<char>, RequestId>,
    key: Seq<char>,
    latest: RequestId,
    event_key: Seq<char>,
    event_id: RequestId,
)
    ensures
        ({
            let after = before.insert(key, latest);
            let accepted = after.contains_key(event_key) && after[event_key] == event_id;
            &&& event_key == key ==> (accepted <==> event_id == latest)
            &&& event_key != key ==> (accepted <==> (before.contains_key(event_key)
                && before[event_key] == event_id))
        }),
{
}

} // verus!

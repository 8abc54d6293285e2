//! Data of the home page: recently used tools, favourites and the sample data
//! of the review page, and how long a notice stays visible.
use vstd::prelude::*;

use crate::model::communication::{CommunicationKind, CommunicationSessionState};
use crate::navigation::{favorite_descriptors, keep_members, string_views};
use crate::session::ActiveCommunicationSession;
use crate::text::{owned, str_equal};

verus! {

/// Most recently used tools kept on the home page.
pub const MAX_RECENT_VISITS: usize = 8;

/// A recent use of a tool, kept in memory only; it is never written to the
/// settings file, so no session trail survives the process.
#[derive(Clone, Debug)]
pub struct RecentToolVisit {
    pub tool_id: String,
    pub session_summary: Option<String>,
    pub status: Option<String>,
    pub visited_at: String,
}

/// The visits of `s` that are not of the tool `id`, in their order.
pub open spec fn visits_without(s: Seq<RecentToolVisit>, id: Seq<char>) -> Seq<RecentToolVisit>
    decreases s.len(),
{
    if s.len() == 0 {
        Seq::empty()
    } else {
        let rest = visits_without(s.drop_last(), id);
        if s.last().tool_id@ != id {
            rest.push(s.last())
        } else {
            rest
        }
    }
}

/// The recent list after `visit`: the visit first, then the earlier visits of
/// other tools, at most [`MAX_RECENT_VISITS`] in all.
pub open spec fn after_visit(visits: Seq<RecentToolVisit>, visit: RecentToolVisit) -> Seq<RecentToolVisit> {
    let all = seq![visit] + visits_without(visits, visit.tool_id@);
    if all.len() > MAX_RECENT_VISITS {
        all.take(MAX_RECENT_VISITS as int)
    } else {
        all
    }
}

/// Puts `visit` at the front of the recent list, drops the earlier visit of
/// the same tool and keeps at most [`MAX_RECENT_VISITS`] visits.
pub fn record_recent_visit(visits: &mut Vec<RecentToolVisit>, visit: RecentToolVisit)
    ensures
        final(visits)@ == after_visit(old(visits)@, visit),
        final(visits)@.len() <= MAX_RECENT_VISITS,
        final(visits)@[0] == visit,
{
    let ghost all = visits@;
    let ghost id = visit.tool_id@;
    let mut rest: Vec<RecentToolVisit> = Vec::new();
    std::mem::swap(&mut rest, visits);
    let mut out: Vec<RecentToolVisit> = Vec::new();
    let tool_id = visit.tool_id.clone();
    out.push(visit);
    let ghost first = out@;
    let ghost mut i: int = 0;
    while rest.len() > 0
        invariant
            0 <= i <= all.len(),
            rest@ == all.skip(i),
            tool_id@ == id,
            first.len() == 1,
            out@ == first + visits_without(all.take(i), id),
        decreases rest.len(),
    {
        let item = rest.remove(0);
        proof {
            assert(item == all[i]);
            assert(all.take(i + 1).drop_last() =~= all.take(i));
            assert(all.take(i + 1).last() == all[i]);
            assert(rest@ =~= all.skip(i + 1));
        }
        let ghost before = out@;
        if !str_equal(item.tool_id.as_str(), tool_id.as_str()) {
            out.push(item);
            assert(out@ =~= first + visits_without(all.take(i + 1), id));
        } else {
            assert(out@ =~= first + visits_without(all.take(i + 1), id));
        }
        proof {
            i = i + 1;
        }
    }
    assert(all.take(i) =~= all);
    out.truncate(MAX_RECENT_VISITS);
    assert(out@ =~= after_visit(all, first[0]));
    *visits = out;
}

/// The position of the first visit of the tool `id` in `s`, if any.
pub open spec fn first_visit_of(s: Seq<RecentToolVisit>, id: Seq<char>) -> Option<int> {
    if exists|i: int| 0 <= i < s.len() && (#[trigger] s[i]).tool_id@ == id {
        Some(choose|i: int| 0 <= i < s.len() && (#[trigger] s[i]).tool_id@ == id && forall|j: int| 0 <= j < i ==> (
        #[trigger] s[j]).tool_id@ != id)
    } else {
        None
    }
}

/// The position of the first visit of `tool_id`.
fn find_visit(visits: &Vec<RecentToolVisit>, tool_id: &str) -> (r: Option<usize>)
    ensures
        match r {
            Some(i) => i < visits@.len() && visits@[i as int].tool_id@ == tool_id@ && forall|j: int|
                0 <= j < i ==> (#[trigger] visits@[j]).tool_id@ != tool_id@,
            None => forall|j: int| 0 <= j < visits@.len() ==> (#[trigger] visits@[j]).tool_id@ != tool_id@,
        },
{
    let mut i: usize = 0;
    while i < visits.len()
        invariant
            i <= visits@.len(),
            forall|j: int| 0 <= j < i ==> (#[trigger] visits@[j]).tool_id@ != tool_id@,
        decreases visits.len() - i,
    {
        if str_equal(visits[i].tool_id.as_str(), tool_id) {
            return Some(i);
        }
        i = i + 1;
    }
    None
}

/// `after` is `before` with the first visit of `id` changed by `changed`,
/// which keeps the tool and the time of the visit; without a visit of `id`
/// nothing changes.
pub open spec fn first_visit_changed(
    before: Seq<RecentToolVisit>,
    after: Seq<RecentToolVisit>,
    id: Seq<char>,
    changed: spec_fn(RecentToolVisit) -> bool,
) -> bool {
    &&& after.len() == before.len()
    &&& (forall|j: int| 0 <= j < before.len() ==> (#[trigger] before[j]).tool_id@ != id) ==> after == before
    &&& forall|i: int|
        0 <= i < before.len() && (#[trigger] before[i]).tool_id@ == id && (forall|j: int|
            0 <= j < i ==> (#[trigger] before[j]).tool_id@ != id) ==> {
            &&& forall|j: int| 0 <= j < before.len() && j != i ==> #[trigger] after[j] == before[j]
            &&& after[i].tool_id == before[i].tool_id
            &&& after[i].visited_at == before[i].visited_at
            &&& changed(after[i])
        }
}

/// A communication tool of the recent list started a session: its visit shows
/// the session summary and the starting state.
pub fn update_recent_summary(visits: &mut Vec<RecentToolVisit>, tool_id: &str, summary: String)
    ensures
        first_visit_changed(
            old(visits)@,
            final(visits)@,
            tool_id@,
            |v: RecentToolVisit| v.session_summary == Some(summary) && (v.status matches Some(s) && s@
                == CommunicationSessionState::Starting.spec_label()),
        ),
{
    match find_visit(visits, tool_id) {
        Some(i) => {
            let mut visit = visits.remove(i);
            visit.session_summary = Some(summary);
            visit.status = Some(owned(CommunicationSessionState::Starting.label()));
            visits.insert(i, visit);
            assert forall|k: int|
                0 <= k < old(visits)@.len() && (#[trigger] old(visits)@[k]).tool_id@ == tool_id@ && (forall|j: int|
                    0 <= j < k ==> (#[trigger] old(visits)@[j]).tool_id@ != tool_id@) implies k == i by {
                if k < i {
                } else if k > i {
                    assert(old(visits)@[i as int].tool_id@ == tool_id@);
                }
            }
        },
        None => {},
    }
}

/// A communication session of a tool of the recent list changed state.
pub fn update_recent_status(visits: &mut Vec<RecentToolVisit>, tool_id: &str, state: CommunicationSessionState)
    ensures
        first_visit_changed(
            old(visits)@,
            final(visits)@,
            tool_id@,
            |v: RecentToolVisit| v.status matches Some(s) && s@
                == state.spec_label(),
        ),
        forall|i: int| 0 <= i < old(visits)@.len() ==> (#[trigger] final(visits)@[i]).session_summary == old(
            visits,
        )@[i].session_summary,
{
    match find_visit(visits, tool_id) {
        Some(i) => {
            let mut visit = visits.remove(i);
            visit.status = Some(owned(state.label()));
            visits.insert(i, visit);
            assert forall|k: int|
                0 <= k < old(visits)@.len() && (#[trigger] old(visits)@[k]).tool_id@ == tool_id@ && (forall|j: int|
                    0 <= j < k ==> (#[trigger] old(visits)@[j]).tool_id@ != tool_id@) implies k == i by {
                if k < i {
                } else if k > i {
                    assert(old(visits)@[i as int].tool_id@ == tool_id@);
                }
            }
        },
        None => {},
    }
}

/// The visit of `tool_id` at `visited_at`, with the summary and state of its
/// live session when it has one.
pub fn recent_visit_for(
    tool_id: &str,
    active: &Vec<ActiveCommunicationSession>,
    visited_at: String,
) -> (v: RecentToolVisit)
    ensures
        v.tool_id@ == tool_id@,
        v.visited_at == visited_at,
        match first_session_of(active@, tool_id@) {
            Some(i) => (v.session_summary matches Some(s) && s@ == active@[i].summary@) && (v.status matches Some(
                t,
            ) && t@ == active@[i].state.spec_label()),
            None => v.session_summary is None && v.status is None,
        },
{
    let mut i: usize = 0;
    while i < active.len()
        invariant
            i <= active@.len(),
            forall|j: int| 0 <= j < i ==> (#[trigger] active@[j]).kind.spec_tool_id() != tool_id@,
        decreases active.len() - i,
    {
        if str_equal(active[i].kind.tool_id(), tool_id) {
            let ghost k = i as int;
            assert(first_session_of(active@, tool_id@) == Some(k)) by {
                assert(exists|j: int| 0 <= j < active@.len() && (#[trigger] active@[j]).kind.spec_tool_id() == tool_id@);
                let c = choose|j: int| 0 <= j < active@.len() && (#[trigger] active@[j]).kind.spec_tool_id() == tool_id@
                    && forall|m: int| 0 <= m < j ==> (#[trigger] active@[m]).kind.spec_tool_id() != tool_id@;
                assert(active@[k].kind.spec_tool_id() == tool_id@ && forall|m: int| 0 <= m < k ==> (
                #[trigger] active@[m]).kind.spec_tool_id() != tool_id@);
                if c < k {
                } else if c > k {
                }
            }
            return RecentToolVisit {
                tool_id: owned(tool_id),
                session_summary: Some(active[i].summary.clone()),
                status: Some(owned(active[i].state.label())),
                visited_at,
            };
        }
        i = i + 1;
    }
    RecentToolVisit { tool_id: owned(tool_id), session_summary: None, status: None, visited_at }
}

/// The position of the first session of `sessions` whose tool is `id`.
pub open spec fn first_session_of(sessions: Seq<ActiveCommunicationSession>, id: Seq<char>) -> Option<int> {
    if exists|i: int| 0 <= i < sessions.len() && (#[trigger] sessions[i]).kind.spec_tool_id() == id {
        Some(
            choose|i: int|
                0 <= i < sessions.len() && (#[trigger] sessions[i]).kind.spec_tool_id() == id && forall|j: int|
                    0 <= j < i ==> (#[trigger] sessions[j]).kind.spec_tool_id() != id,
        )
    } else {
        None
    }
}

/// `favorites` without the tool `id`, in their order.
pub open spec fn without_id(favorites: Seq<Seq<char>>, id: Seq<char>) -> Seq<Seq<char>>
    decreases favorites.len(),
{
    if favorites.len() == 0 {
        Seq::empty()
    } else {
        let rest = without_id(favorites.drop_last(), id);
        if favorites.last() != id {
            rest.push(favorites.last())
        } else {
            rest
        }
    }
}

/// Adds `tool_id` to the favourites, or removes it when it is one; only a
/// registered tool is added.
pub fn toggle_favorite(favorite_tools: &mut Vec<String>, registry: &Vec<String>, tool_id: &str)
    ensures
        string_views(old(favorite_tools)@).contains(tool_id@) ==> string_views(final(favorite_tools)@) == without_id(
            string_views(old(favorite_tools)@),
            tool_id@,
        ),
        !string_views(old(favorite_tools)@).contains(tool_id@) && string_views(registry@).contains(tool_id@)
            ==> string_views(final(favorite_tools)@) == string_views(old(favorite_tools)@).push(tool_id@),
        !string_views(old(favorite_tools)@).contains(tool_id@) && !string_views(registry@).contains(tool_id@)
            ==> string_views(final(favorite_tools)@) == string_views(old(favorite_tools)@),
{
    let ghost start = string_views(favorite_tools@);
    let mut kept: Vec<String> = Vec::new();
    let mut found = false;
    let mut i: usize = 0;
    while i < favorite_tools.len()
        invariant
            i <= favorite_tools@.len(),
            start == string_views(favorite_tools@),
            string_views(kept@) == without_id(start.take(i as int), tool_id@),
            found == start.take(i as int).contains(tool_id@),
        decreases favorite_tools.len() - i,
    {
        let ghost before = string_views(kept@);
        assert(start.take(i as int + 1).drop_last() =~= start.take(i as int));
        assert(start.take(i as int + 1).last() == favorite_tools@[i as int]@);
        if str_equal(favorite_tools[i].as_str(), tool_id) {
            found = true;
            assert(start.take(i as int + 1)[i as int] == tool_id@);
        } else {
            kept.push(favorite_tools[i].clone());
            assert(string_views(kept@) =~= before.push(favorite_tools@[i as int]@));
        }
        proof {
            if start.take(i as int).contains(tool_id@) {
                let t = start.take(i as int);
                let j = choose|j: int| 0 <= j < t.len() && #[trigger] t[j] == tool_id@;
                assert(start.take(i as int + 1)[j] == tool_id@);
            }
            if start.take(i as int + 1).contains(tool_id@) && start.take(i as int + 1)[i as int] != tool_id@ {
                let t = start.take(i as int + 1);
                let j = choose|j: int| 0 <= j < t.len() && #[trigger] t[j] == tool_id@;
                assert(start.take(i as int)[j] == tool_id@);
            }
        }
        i = i + 1;
    }
    assert(start.take(favorite_tools@.len() as int) =~= start);
    if found {
        *favorite_tools = kept;
    } else if is_registered(registry, tool_id) {
        favorite_tools.push(owned(tool_id));
        assert(string_views(favorite_tools@) =~= start.push(tool_id@));
    }
}

/// Whether `tool_id` is one of `registry`.
fn is_registered(registry: &Vec<String>, tool_id: &str) -> (b: bool)
    ensures
        b == string_views(registry@).contains(tool_id@),
{
    let mut i: usize = 0;
    while i < registry.len()
        invariant
            i <= registry@.len(),
            forall|j: int| 0 <= j < i ==> registry@[j]@ != tool_id@,
        decreases registry.len() - i,
    {
        if str_equal(registry[i].as_str(), tool_id) {
            assert(string_views(registry@)[i as int] == tool_id@);
            return true;
        }
        i = i + 1;
    }
    proof {
        if string_views(registry@).contains(tool_id@) {
            let j = choose|j: int| 0 <= j < registry@.len() && string_views(registry@)[j] == tool_id@;
            assert(registry@[j]@ == tool_id@);
        }
    }
    false
}

/// A sample session of the review page.
fn review_session(
    kind: CommunicationKind,
    summary: &str,
    status_detail: &str,
) -> (s: ActiveCommunicationSession)
    ensures
        s.kind == kind,
        s.summary@ == summary@,
        s.state == CommunicationSessionState::Connected,
        s.status_detail@ == status_detail@,
{
    ActiveCommunicationSession {
        kind,
        summary: owned(summary),
        state: CommunicationSessionState::Connected,
        status_detail: owned(status_detail),
    }
}

/// The sample active sessions of the review page.
pub fn home_review_sessions() -> (sessions: Vec<ActiveCommunicationSession>)
    ensures
        sessions@.len() == 2,
        sessions@[0].kind == CommunicationKind::Tcp,
        sessions@[0].summary@ == "192.0.2.10:8080"@,
        sessions@[0].state == CommunicationSessionState::Connected,
        sessions@[0].status_detail@ == "已建立 TCP 连接"@,
        sessions@[1].kind == CommunicationKind::Serial,
        sessions@[1].summary@ == "COM3，115200，8N1"@,
        sessions@[1].state == CommunicationSessionState::Connected,
        sessions@[1].status_detail@ == "串口已打开"@,
{
    vec![
        review_session(CommunicationKind::Tcp, "192.0.2.10:8080", "已建立 TCP 连接"),
        review_session(CommunicationKind::Serial, "COM3，115200，8N1", "串口已打开"),
    ]
}

/// The tools the review page shows as favourites.
pub open spec fn review_favorite_ids() -> Seq<Seq<char>> {
    seq!["dns-lookup"@, "ping"@, "tcp-debug"@]
}

/// The sample favourites of the review page: DNS lookup, Ping and TCP debug,
/// as far as they are registered.
pub fn home_review_favorites(registry: &Vec<String>) -> (favorites: Vec<String>)
    ensures
        string_views(favorites@) == keep_members(review_favorite_ids(), string_views(registry@)),
{
    let ids = vec![owned("dns-lookup"), owned("ping"), owned("tcp-debug")];
    assert(string_views(ids@) =~= review_favorite_ids());
    favorite_descriptors(&ids, registry)
}

/// `v` is the visit of `tool_id` at `visited_at` with the session summary
/// `summary` and the status `status`.
pub open spec fn visit_is(
    v: RecentToolVisit,
    tool_id: Seq<char>,
    summary: Seq<char>,
    status: Seq<char>,
    visited_at: Seq<char>,
) -> bool {
    &&& v.tool_id@ == tool_id
    &&& v.session_summary matches Some(s) && s@ == summary
    &&& v.status matches Some(t) && t@ == status
    &&& v.visited_at@ == visited_at
}

/// A sample recent visit of the review page.
fn review_visit(tool_id: &str, session_summary: &str, status: &str, visited_at: &str) -> (v: RecentToolVisit)
    ensures
        visit_is(v, tool_id@, session_summary@, status@, visited_at@),
{
    RecentToolVisit {
        tool_id: owned(tool_id),
        session_summary: Some(owned(session_summary)),
        status: Some(owned(status)),
        visited_at: owned(visited_at),
    }
}

/// The sample recent visits of the review page, most recent first.
pub fn home_review_recent_visits() -> (visits: Vec<RecentToolVisit>)
    ensures
        visits@.len() == 5,
        visit_is(visits@[0], "tcp-debug"@, "192.0.2.10:8080"@, "已连接"@, "2025-05-20 14:32:18"@),
        visit_is(visits@[1], "serial-debug"@, "COM3，115200，8N1"@, "已打开"@, "2025-05-20 13:47:02"@),
        visit_is(visits@[2], "dns-lookup"@, "www.example.com"@, "已完成"@, "2025-05-20 11:25:33"@),
        visit_is(visits@[3], "ping"@, "198.51.100.8"@, "已完成"@, "2025-05-20 10:12:09"@),
        visit_is(visits@[4], "tcp-probe"@, "192.0.2.10:22"@, "已完成"@, "2025-05-19 17:58:44"@),
{
    vec![
        review_visit("tcp-debug", "192.0.2.10:8080", "已连接", "2025-05-20 14:32:18"),
        review_visit("serial-debug", "COM3，115200，8N1", "已打开", "2025-05-20 13:47:02"),
        review_visit("dns-lookup", "www.example.com", "已完成", "2025-05-20 11:25:33"),
        review_visit("ping", "198.51.100.8", "已完成", "2025-05-20 10:12:09"),
        review_visit("tcp-probe", "192.0.2.10:22", "已完成", "2025-05-19 17:58:44"),
    ]
}

/// The kind of a notice.
#[derive(Clone, Copy, Debug, PartialEq, Eq, Structural)]
pub enum NoticeTone {
    Success,
    Danger,
}

/// How long a notice stays visible, in seconds: failures stay longer.
pub fn notice_duration(tone: NoticeTone) -> (seconds: u64)
    ensures
        seconds == match tone {
            NoticeTone::Success => 4u64,
            NoticeTone::Danger => 10u64,
        },
{
    match tone {
        NoticeTone::Success => 4,
        NoticeTone::Danger => 10,
    }
}

} // verus!

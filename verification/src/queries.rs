//! Queries over the stored records: the session to resume, its pauses, the
//! history list and the completed-Work counts.

use vstd::prelude::*;

use crate::session::{ActiveSession, PauseRecord, PhaseKind, SessionRecord};

verus! {

broadcast use Seq::lemma_filter_push;

/// A Work session that ran to its end.
pub open spec fn completed_work(r: SessionRecord) -> bool {
    r.phase == PhaseKind::Work && r.completed_at_ms is Some
}

/// A Work session that ran to its end at or after `since_ms`.
pub open spec fn completed_work_since(r: SessionRecord, since_ms: i64) -> bool {
    completed_work(r) && r.completed_at_ms.unwrap() >= since_ms
}

/// A stored session, with its id, that is a completed Work session.
pub open spec fn completed_work_entry(e: (u64, SessionRecord)) -> bool {
    completed_work(e.1)
}

/// The number of completed Work sessions in `s`.
pub open spec fn count_completed_work(s: Seq<SessionRecord>) -> nat {
    s.filter(|r: SessionRecord| completed_work(r)).len()
}

/// The number of Work sessions in `s` completed at or after `since_ms`.
pub open spec fn count_completed_work_since(s: Seq<SessionRecord>, since_ms: i64) -> nat {
    s.filter(|r: SessionRecord| completed_work_since(r, since_ms)).len()
}

/// Counts the naturally completed Work sessions: all of them, and those
/// completed at or after `since_ms` (pass the start of today to get the
/// count for today).
pub fn completed_work_counts(sessions: &Vec<SessionRecord>, since_ms: i64) -> (r: (u32, u32))
    requires
        count_completed_work(sessions@) <= u32::MAX,
    ensures
        r.0 == count_completed_work(sessions@),
        r.1 == count_completed_work_since(sessions@, since_ms),
{
    let ghost all = |r: SessionRecord| completed_work(r);
    let ghost recent = |r: SessionRecord| completed_work_since(r, since_ms);
    let mut total: u32 = 0;
    let mut since: u32 = 0;
    let n = sessions.len();
    for i in 0..n
        invariant
            n == sessions@.len(),
            count_completed_work(sessions@) <= u32::MAX,
            all == (|r: SessionRecord| completed_work(r)),
            recent == (|r: SessionRecord| completed_work_since(r, since_ms)),
            total == sessions@.take(i as int).filter(all).len(),
            since == sessions@.take(i as int).filter(recent).len(),
    {
        let rec = sessions[i];
        proof {
            assert(sessions@.take(i + 1) == sessions@.take(i as int).push(rec));
            sessions@.take(i as int).lemma_filter_push(rec, all);
            sessions@.take(i as int).lemma_filter_push(rec, recent);
            sessions@.lemma_filter_take_len(all, i + 1);
            lemma_today_within_total(sessions@.take(i as int), since_ms);
        }
        match rec.phase {
            PhaseKind::Work => {
                if let Some(at) = rec.completed_at_ms {
                    total += 1;
                    if at >= since_ms {
                        since += 1;
                    }
                }
            },
            PhaseKind::Break => {},
        }
    }
    proof {
        assert(sessions@.take(n as int) == sessions@);
    }
    (total, since)
}

/// The Work sessions completed since a moment are among all completed Work
/// sessions, so they are never more.
pub proof fn lemma_today_within_total(s: Seq<SessionRecord>, since_ms: i64)
    ensures
        count_completed_work_since(s, since_ms) <= count_completed_work(s),
    decreases s.len(),
{
    if s.len() > 0 {
        lemma_today_within_total(s.drop_last(), since_ms);
        assert(s == s.drop_last().push(s.last()));
    }
}

/// The entries that the history list shows: completed Work sessions, in the
/// order given.
pub fn completed_work_entries(entries: &Vec<(u64, SessionRecord)>) -> (r: Vec<(u64, SessionRecord)>)
    ensures
        r@ == entries@.filter(|e: (u64, SessionRecord)| completed_work_entry(e)),
{
    let ghost keep = |e: (u64, SessionRecord)| completed_work_entry(e);
    let mut out: Vec<(u64, SessionRecord)> = Vec::new();
    let n = entries.len();
    for i in 0..n
        invariant
            n == entries@.len(),
            keep == (|e: (u64, SessionRecord)| completed_work_entry(e)),
            out@ == entries@.take(i as int).filter(keep),
    {
        let e = entries[i];
        proof {
            assert(entries@.take(i + 1) == entries@.take(i as int).push(e));
            entries@.take(i as int).lemma_filter_push(e, keep);
        }
        let keep_it = match e.1.phase {
            PhaseKind::Work => e.1.completed_at_ms.is_some(),
            PhaseKind::Break => false,
        };
        if keep_it {
            out.push(e);
        }
    }
    proof {
        assert(entries@.take(n as int) == entries@);
    }
    out
}

/// `s[i]` is the active session to resume: active, started no earlier than
/// any other active session, and started strictly later than every active
/// session before it (of equal starts the first one wins).
pub open spec fn is_latest_active(s: Seq<(u64, SessionRecord)>, i: int) -> bool {
    &&& 0 <= i < s.len()
    &&& s[i].1.active()
    &&& forall|j: int|
        0 <= j < s.len() && #[trigger] s[j].1.active() ==> {
            &&& s[j].1.started_at_ms <= s[i].1.started_at_ms
            &&& j < i ==> s[j].1.started_at_ms < s[i].1.started_at_ms
        }
}

/// Picks the session to resume among all stored ones: of those neither
/// completed nor abandoned, the one started last (a crash could leave more
/// than one behind). `None` when no session is active.
pub fn select_active(sessions: &Vec<(u64, SessionRecord)>) -> (r: Option<(u64, SessionRecord)>)
    ensures
        r is None <==> (forall|j: int| 0 <= j < sessions@.len() ==> !(#[trigger] sessions@[j].1.active())),
        r matches Some(e) ==> exists|i: int| is_latest_active(sessions@, i) && sessions@[i] == e,
{
    let n = sessions.len();
    let mut best: Option<usize> = None;
    for idx in 0..n
        invariant
            n == sessions@.len(),
            best is None ==> forall|j: int| 0 <= j < idx ==> !(#[trigger] sessions@[j].1.active()),
            best matches Some(b) ==> b < idx && is_latest_active(sessions@.take(idx as int), b as int),
    {
        let rec = sessions[idx].1;
        if rec.is_active() {
            let replace = match best {
                None => true,
                Some(b) => rec.started_at_ms > sessions[b].1.started_at_ms,
            };
            if replace {
                best = Some(idx);
            }
        }
        proof {
            let t = sessions@.take(idx + 1);
            assert(forall|j: int| 0 <= j < idx + 1 ==> t[j] == sessions@[j]);
        }
    }
    proof {
        assert(sessions@.take(n as int) == sessions@);
    }
    match best {
        None => None,
        Some(b) => Some(sessions[b]),
    }
}

/// A closed pause's contribution: the time between pausing and resuming,
/// or nothing if that is negative.
pub open spec fn closed_gap(p: PauseRecord) -> int {
    match p.resumed_at_ms {
        Some(r) => if r - p.paused_at_ms < 0 { 0 } else { r - p.paused_at_ms },
        None => 0,
    }
}

/// The total time spent in the closed pauses of `s`.
pub open spec fn closed_total(s: Seq<(u64, PauseRecord)>) -> int
    decreases s.len(),
{
    if s.len() == 0 { 0 } else { closed_total(s.drop_last()) + closed_gap(s.last().1) }
}

/// The last pause in `s` that is still open, as `(pause_id, paused_at_ms)`.
pub open spec fn last_open(s: Seq<(u64, PauseRecord)>) -> Option<(u64, i64)>
    decreases s.len(),
{
    if s.len() == 0 {
        None
    } else if s.last().1.resumed_at_ms is None {
        Some((s.last().0, s.last().1.paused_at_ms))
    } else {
        last_open(s.drop_last())
    }
}

/// Each closed pause's length fits in `i64`, and so does their sum.
pub open spec fn pauses_fit(s: Seq<(u64, PauseRecord)>) -> bool {
    &&& forall|i: int|
        0 <= i < s.len() && (#[trigger] s[i]).1.resumed_at_ms is Some ==> i64::MIN <= s[i].1.resumed_at_ms.unwrap()
            - s[i].1.paused_at_ms <= i64::MAX
    &&& closed_total(s) <= i64::MAX
}

proof fn lemma_closed_total_prefix(s: Seq<(u64, PauseRecord)>, k: int)
    requires
        0 <= k <= s.len(),
    ensures
        0 <= closed_total(s.take(k)) <= closed_total(s),
    decreases s.len(),
{
    if k < s.len() {
        lemma_closed_total_prefix(s.drop_last(), k);
        assert(s.drop_last().take(k) == s.take(k));
    } else {
        assert(s.take(k) == s);
        lemma_closed_total_nonneg(s);
    }
}

proof fn lemma_closed_total_nonneg(s: Seq<(u64, PauseRecord)>)
    ensures
        closed_total(s) >= 0,
    decreases s.len(),
{
    if s.len() > 0 {
        lemma_closed_total_nonneg(s.drop_last());
    }
}

/// Rebuilds the active session from its record and the pauses stored for it:
/// closed pauses add up into `closed_paused_ms` and the last open pause, if
/// any, becomes `open_pause`.
pub fn restore_active(session_id: u64, session: SessionRecord, pauses: &Vec<(u64, PauseRecord)>) -> (a: ActiveSession)
    requires
        pauses_fit(pauses@),
    ensures
        a.session_id == session_id,
        a.session == session,
        a.closed_paused_ms == closed_total(pauses@),
        a.open_pause == last_open(pauses@),
{
    let n = pauses.len();
    let mut closed: i64 = 0;
    let mut open: Option<(u64, i64)> = None;
    for i in 0..n
        invariant
            n == pauses@.len(),
            pauses_fit(pauses@),
            closed == closed_total(pauses@.take(i as int)),
            open == last_open(pauses@.take(i as int)),
    {
        let (pid, pr) = pauses[i];
        proof {
            assert(pauses@.take(i + 1).drop_last() == pauses@.take(i as int));
            assert(pauses@[i as int] == (pid, pr));
            lemma_closed_total_prefix(pauses@, i + 1);
        }
        match pr.resumed_at_ms {
            Some(r) => {
                let gap = r - pr.paused_at_ms;
                closed = closed + if gap < 0 { 0 } else { gap };
            },
            None => {
                open = Some((pid, pr.paused_at_ms));
            },
        }
    }
    proof {
        assert(pauses@.take(n as int) == pauses@);
    }
    ActiveSession { session_id, session, closed_paused_ms: closed, open_pause: open }
}

/// In the history list, entry `i` of `s` comes before entry `j`: it started
/// later, or at the same moment and earlier in `s` (the sort is stable).
pub open spec fn history_before(s: Seq<(u64, SessionRecord)>, i: int, j: int) -> bool {
    s[i].1.started_at_ms > s[j].1.started_at_ms || (s[i].1.started_at_ms == s[j].1.started_at_ms
        && i < j)
}

/// `p` lists, as indices into `s`, the terminated sessions that the history
/// shows: newest first by start time (ties in stored order), cut to `limit`.
pub open spec fn is_history_order(s: Seq<(u64, SessionRecord)>, p: Seq<int>, limit: int) -> bool {
    &&& p.len() <= limit
    &&& forall|k: int| 0 <= k < p.len() ==> 0 <= #[trigger] p[k] < s.len() && s[p[k]].1.terminated()
    &&& forall|k: int, l: int| 0 <= k < l < p.len() ==> history_before(s, #[trigger] p[k], #[trigger] p[l])
    &&& forall|k: int, j: int|
        0 <= k < p.len() && 0 <= j < s.len() && (#[trigger] s[j]).1.terminated() && !p.contains(j)
            ==> history_before(s, #[trigger] p[k], j)
    &&& p.len() == limit || forall|j: int| 0 <= j < s.len() && (#[trigger] s[j]).1.terminated() ==> p.contains(j)
}

/// The most recent terminated (completed or abandoned) sessions, newest
/// first by start time and at most `limit` of them. Sessions still active
/// are left out.
pub fn session_history(sessions: &Vec<(u64, SessionRecord)>, limit: usize) -> (r: Vec<(u64, SessionRecord)>)
    ensures
        exists|p: Seq<int>| {
            &&& is_history_order(sessions@, p, limit as int)
            &&& r@.len() == p.len()
            &&& forall|k: int| 0 <= k < p.len() ==> r@[k] == sessions@[#[trigger] p[k]]
        },
{
    let n = sessions.len();
    let mut taken: Vec<bool> = Vec::new();
    for i in 0..n
        invariant
            taken@.len() == i,
            forall|j: int| 0 <= j < i ==> !(#[trigger] taken@[j]),
    {
        taken.push(false);
    }
    let mut out: Vec<(u64, SessionRecord)> = Vec::new();
    let ghost mut p: Seq<int> = Seq::empty();
    let mut done = false;
    while !done && out.len() < limit
        invariant
            n == sessions@.len(),
            taken@.len() == n,
            out@.len() == p.len(),
            p.len() <= limit,
            forall|k: int| 0 <= k < p.len() ==> out@[k] == sessions@[#[trigger] p[k]],
            forall|j: int| 0 <= j < n ==> (#[trigger] taken@[j] <==> p.contains(j)),
            forall|k: int| 0 <= k < p.len() ==> 0 <= #[trigger] p[k] < n && sessions@[p[k]].1.terminated(),
            forall|k: int, l: int| 0 <= k < l < p.len() ==> history_before(sessions@, #[trigger] p[k], #[trigger] p[l]),
            forall|k: int, j: int|
                0 <= k < p.len() && 0 <= j < n && (#[trigger] sessions@[j]).1.terminated() && !p.contains(j)
                    ==> history_before(sessions@, #[trigger] p[k], j),
            done ==> forall|j: int| 0 <= j < n && (#[trigger] sessions@[j]).1.terminated() ==> p.contains(j),
        decreases limit - out@.len() + if done { 0int } else { 1int },
    {
        let mut best: Option<usize> = None;
        for j in 0..n
            invariant
                n == sessions@.len(),
                taken@.len() == n,
                best is None ==> forall|m: int|
                    0 <= m < j && (#[trigger] sessions@[m]).1.terminated() ==> taken@[m],
                best matches Some(b) ==> {
                    &&& b < j
                    &&& !taken@[b as int]
                    &&& sessions@[b as int].1.terminated()
                    &&& forall|m: int|
                        0 <= m < j && (#[trigger] sessions@[m]).1.terminated() && !taken@[m] && m != b
                            ==> history_before(sessions@, b as int, m)
                },
        {
            let rec = sessions[j].1;
            let ended = rec.completed_at_ms.is_some() || rec.abandoned_at_ms.is_some();
            if !taken[j] && ended {
                match best {
                    None => {
                        best = Some(j);
                    },
                    Some(b) => {
                        if rec.started_at_ms > sessions[b].1.started_at_ms {
                            best = Some(j);
                        }
                    },
                }
            }
        }
        match best {
            None => {
                done = true;
            },
            Some(b) => {
                proof {
                    assert(!p.contains(b as int));
                }
                taken.set(b, true);
                out.push(sessions[b]);
                proof {
                    let old_p = p;
                    p = p.push(b as int);
                    assert(forall|k: int| 0 <= k < old_p.len() ==> p[k] == old_p[k]);
                    assert forall|j: int| 0 <= j < n implies (#[trigger] taken@[j] <==> p.contains(j)) by {
                        if j == b {
                            assert(p[p.len() - 1] == j);
                        } else if old_p.contains(j) {
                            let k = choose|k: int| 0 <= k < old_p.len() && old_p[k] == j;
                            assert(p[k] == j);
                        } else if p.contains(j) {
                            let k = choose|k: int| 0 <= k < p.len() && p[k] == j;
                            assert(old_p[k] == j);
                        }
                    }
                    assert forall|k: int, j: int|
                        0 <= k < p.len() && 0 <= j < n && (#[trigger] sessions@[j]).1.terminated() && !p.contains(j)
                            implies history_before(sessions@, #[trigger] p[k], j) by {
                        if !old_p.contains(j) {
                        } else {
                            let m = choose|m: int| 0 <= m < old_p.len() && old_p[m] == j;
                            assert(p[m] == j);
                        }
                    }
                }
            },
        }
    }
    proof {
        assert(is_history_order(sessions@, p, limit as int));
    }
    out
}

/// Whether `restore_active` can fold these pauses without overflow.
pub fn pauses_in_range(pauses: &Vec<(u64, PauseRecord)>) -> (b: bool)
    ensures
        b == pauses_fit(pauses@),
{
    let n = pauses.len();
    let mut total: i128 = 0;
    for i in 0..n
        invariant
            n == pauses@.len(),
            total == closed_total(pauses@.take(i as int)),
            0 <= total <= i64::MAX,
            forall|k: int|
                0 <= k < i && (#[trigger] pauses@[k]).1.resumed_at_ms is Some ==> i64::MIN
                    <= pauses@[k].1.resumed_at_ms.unwrap() - pauses@[k].1.paused_at_ms <= i64::MAX,
    {
        let pr = pauses[i].1;
        proof {
            assert(pauses@.take(i + 1).drop_last() == pauses@.take(i as int));
            lemma_closed_total_prefix(pauses@, i + 1);
        }
        if let Some(r) = pr.resumed_at_ms {
            let gap = r as i128 - pr.paused_at_ms as i128;
            if gap < i64::MIN as i128 || gap > i64::MAX as i128 {
                return false;
            }
            if gap > 0 {
                total = total + gap;
            }
            if total > i64::MAX as i128 {
                return false;
            }
        }
    }
    proof {
        assert(pauses@.take(n as int) == pauses@);
    }
    true
}

/// The session as the running app leaves it after going through the pauses
/// `ps` in order: each one opened (and closed, if it has a resume time).
pub open spec fn replay_pauses(a: ActiveSession, ps: Seq<(u64, PauseRecord)>) -> ActiveSession
    decreases ps.len(),
{
    if ps.len() == 0 {
        a
    } else {
        let prev = replay_pauses(a, ps.drop_last());
        let last = ps.last();
        match last.1.resumed_at_ms {
            Some(r) => prev.paused(last.0, last.1.paused_at_ms).resumed(r),
            None => prev.paused(last.0, last.1.paused_at_ms),
        }
    }
}

/// Every pause but the last one has been closed.
pub open spec fn closed_but_last(ps: Seq<(u64, PauseRecord)>) -> bool {
    forall|i: int| 0 <= i < ps.len() - 1 ==> (#[trigger] ps[i]).1.resumed_at_ms is Some
}

proof fn lemma_all_closed_none_open(ps: Seq<(u64, PauseRecord)>)
    requires
        forall|i: int| 0 <= i < ps.len() ==> (#[trigger] ps[i]).1.resumed_at_ms is Some,
    ensures
        last_open(ps) is None,
    decreases ps.len(),
{
    if ps.len() > 0 {
        let dl = ps.drop_last();
        assert forall|i: int| 0 <= i < dl.len() implies (#[trigger] dl[i]).1.resumed_at_ms is Some by {
            assert(dl[i] == ps[i]);
        }
        lemma_all_closed_none_open(dl);
        assert(ps[ps.len() - 1].1.resumed_at_ms is Some);
    }
}

/// Reloading gives back what the app had: folding the stored pause records
/// of a session (`restore_active`) yields the same closed-pause total and
/// open pause as pausing and resuming the live session did, provided the
/// pauses were taken one after another.
pub proof fn lemma_restore_replays_pauses(a: ActiveSession, ps: Seq<(u64, PauseRecord)>)
    requires
        a.closed_paused_ms == 0,
        a.open_pause is None,
        pauses_fit(ps),
        closed_but_last(ps),
    ensures
        replay_pauses(a, ps) == (ActiveSession {
            session_id: a.session_id,
            session: a.session,
            closed_paused_ms: closed_total(ps) as i64,
            open_pause: last_open(ps),
        }),
    decreases ps.len(),
{
    if ps.len() > 0 {
        let dl = ps.drop_last();
        lemma_closed_total_prefix(ps, ps.len() - 1);
        assert(ps.take(ps.len() - 1) == dl);
        lemma_closed_total_nonneg(dl);
        assert forall|i: int|
            0 <= i < dl.len() && (#[trigger] dl[i]).1.resumed_at_ms is Some implies i64::MIN
                <= dl[i].1.resumed_at_ms.unwrap() - dl[i].1.paused_at_ms <= i64::MAX by {
            assert(dl[i] == ps[i]);
        }
        assert forall|i: int| 0 <= i < dl.len() implies (#[trigger] dl[i]).1.resumed_at_ms is Some by {
            assert(dl[i] == ps[i]);
        }
        lemma_restore_replays_pauses(a, dl);
        lemma_all_closed_none_open(dl);
    }
}

/// Storing a Work session as completed adds one to the total the app
/// reloads at start-up, and one to the day's count exactly when it
/// completed at or after the day's start: the live counters and the stored
/// records agree.
pub proof fn lemma_completion_counted(s: Seq<SessionRecord>, i: int, at_ms: i64, since_ms: i64)
    requires
        0 <= i < s.len(),
        s[i].phase == PhaseKind::Work,
        s[i].completed_at_ms is None,
    ensures
        count_completed_work(s.update(i, SessionRecord { completed_at_ms: Some(at_ms), ..s[i] })) == count_completed_work(s) + 1,
        count_completed_work_since(s.update(i, SessionRecord { completed_at_ms: Some(at_ms), ..s[i] }), since_ms)
            == count_completed_work_since(s, since_ms) + if at_ms >= since_ms { 1int } else { 0int },
    decreases s.len(),
{
    let all = |r: SessionRecord| completed_work(r);
    let recent = |r: SessionRecord| completed_work_since(r, since_ms);
    let rec = SessionRecord { completed_at_ms: Some(at_ms), ..s[i] };
    let t = s.update(i, rec);
    let dl = s.drop_last();
    assert(s == dl.push(s.last()));
    if i == s.len() - 1 {
        assert(t == dl.push(rec));
        dl.lemma_filter_len_push(all, s.last());
        dl.lemma_filter_len_push(recent, s.last());
        dl.lemma_filter_len_push(all, rec);
        dl.lemma_filter_len_push(recent, rec);
    } else {
        let tdl = dl.update(i, rec);
        assert(t == tdl.push(s.last()));
        lemma_completion_counted(dl, i, at_ms, since_ms);
        dl.lemma_filter_len_push(all, s.last());
        dl.lemma_filter_len_push(recent, s.last());
        tdl.lemma_filter_len_push(all, s.last());
        tdl.lemma_filter_len_push(recent, s.last());
    }
}

/// Whether `completed_work_counts` can count these sessions in a `u32`.
pub fn counts_in_range(sessions: &Vec<SessionRecord>) -> (b: bool)
    ensures
        b == (count_completed_work(sessions@) <= u32::MAX),
{
    let ghost all = |r: SessionRecord| completed_work(r);
    let mut total: u64 = 0;
    let n = sessions.len();
    for i in 0..n
        invariant
            n == sessions@.len(),
            all == (|r: SessionRecord| completed_work(r)),
            total == sessions@.take(i as int).filter(all).len(),
            total <= u32::MAX,
    {
        let rec = sessions[i];
        proof {
            assert(sessions@.take(i + 1) == sessions@.take(i as int).push(rec));
            sessions@.take(i as int).lemma_filter_push(rec, all);
            sessions@.lemma_filter_take_len(all, i + 1);
        }
        match rec.phase {
            PhaseKind::Work => {
                if rec.completed_at_ms.is_some() {
                    total += 1;
                    if total > u32::MAX as u64 {
                        return false;
                    }
                }
            },
            PhaseKind::Break => {},
        }
    }
    proof {
        assert(sessions@.take(n as int) == sessions@);
    }
    true
}

/// A later cutoff never counts more Work sessions for "since".
pub proof fn lemma_since_count_shrinks(s: Seq<SessionRecord>, since1: i64, since2: i64)
    requires
        since1 <= since2,
    ensures
        count_completed_work_since(s, since2) <= count_completed_work_since(s, since1),
    decreases s.len(),
{
    if s.len() > 0 {
        lemma_since_count_shrinks(s.drop_last(), since1, since2);
        assert(s == s.drop_last().push(s.last()));
    }
}

/// Closing, in place, the one open pause `ps[i]` at `resumed_at_ms` (what
/// storing a resume does) adds that pause's length to the closed total and
/// leaves no pause open; on the rebuilt session it is exactly a resume at
/// `resumed_at_ms`.
pub proof fn lemma_close_stored_pause(ps: Seq<(u64, PauseRecord)>, i: int, resumed_at_ms: i64)
    requires
        0 <= i < ps.len(),
        ps[i].1.resumed_at_ms is None,
        forall|j: int| 0 <= j < ps.len() && j != i ==> (#[trigger] ps[j]).1.resumed_at_ms is Some,
    ensures
        ({
            let closed = (ps[i].0, PauseRecord { resumed_at_ms: Some(resumed_at_ms), ..ps[i].1 });
            let qs = ps.update(i, closed);
            &&& closed_total(qs) == closed_total(ps) + closed_gap(closed.1)
            &&& last_open(ps) == Some((ps[i].0, ps[i].1.paused_at_ms))
            &&& last_open(qs) is None
            &&& forall|a: ActiveSession| pauses_fit(ps) && pauses_fit(qs) ==> (#[trigger] (ActiveSession {
                closed_paused_ms: closed_total(ps) as i64,
                open_pause: last_open(ps),
                ..a
            }).resumed(resumed_at_ms)) == (ActiveSession {
                closed_paused_ms: closed_total(qs) as i64,
                open_pause: last_open(qs),
                ..a
            })
        }),
    decreases ps.len(),
{
    let closed = (ps[i].0, PauseRecord { resumed_at_ms: Some(resumed_at_ms), ..ps[i].1 });
    let qs = ps.update(i, closed);
    let dl = ps.drop_last();
    if i == ps.len() - 1 {
        assert(qs.drop_last() == dl);
        assert forall|j: int| 0 <= j < dl.len() implies (#[trigger] dl[j]).1.resumed_at_ms is Some by {
            assert(dl[j] == ps[j]);
        }
        lemma_all_closed_none_open(dl);
    } else {
        assert(qs.drop_last() == dl.update(i, closed));
        assert forall|j: int| 0 <= j < dl.len() && j != i implies (#[trigger] dl[j]).1.resumed_at_ms is Some by {
            assert(dl[j] == ps[j]);
        }
        lemma_close_stored_pause(dl, i, resumed_at_ms);
        assert(ps[ps.len() - 1].1.resumed_at_ms is Some);
        assert(qs.last() == ps.last());
    }
    lemma_closed_total_nonneg(ps);
    lemma_closed_total_nonneg(qs);
}

/// Adding a record adds one to the total exactly when it is a Work session
/// that ran to its end, and one to the count since `since_ms` exactly when,
/// besides, it ended at or after `since_ms`. Break sessions and sessions
/// that did not end by running out never count.
pub proof fn lemma_counts_step(s: Seq<SessionRecord>, r: SessionRecord, since_ms: i64)
    ensures
        count_completed_work(s.push(r)) == count_completed_work(s) + if r.phase == PhaseKind::Work
            && r.completed_at_ms is Some {
            1int
        } else {
            0int
        },
        count_completed_work_since(s.push(r), since_ms) == count_completed_work_since(s, since_ms)
            + if r.phase == PhaseKind::Work && r.completed_at_ms is Some && r.completed_at_ms.unwrap()
            >= since_ms {
            1int
        } else {
            0int
        },
        count_completed_work(Seq::<SessionRecord>::empty()) == 0,
        count_completed_work_since(Seq::<SessionRecord>::empty(), since_ms) == 0,
{
    s.lemma_filter_len_push(|r: SessionRecord| completed_work(r), r);
    s.lemma_filter_len_push(|r: SessionRecord| completed_work_since(r, since_ms), r);
    reveal(Seq::filter);
}

/// Adding a pause record adds its length to the closed total when it has
/// been resumed later than it was paused, and nothing otherwise; it becomes
/// the open pause when it has not been resumed.
pub proof fn lemma_pauses_step(s: Seq<(u64, PauseRecord)>, e: (u64, PauseRecord))
    ensures
        closed_total(s.push(e)) == closed_total(s) + match e.1.resumed_at_ms {
            Some(r) => if r > e.1.paused_at_ms { r - e.1.paused_at_ms } else { 0 },
            None => 0,
        },
        e.1.resumed_at_ms is None ==> last_open(s.push(e)) == Some((e.0, e.1.paused_at_ms)),
        e.1.resumed_at_ms is Some ==> last_open(s.push(e)) == last_open(s),
        closed_total(Seq::<(u64, PauseRecord)>::empty()) == 0,
        last_open(Seq::<(u64, PauseRecord)>::empty()) is None,
{
    assert(s.push(e).drop_last() == s);
}

/// The history list: every entry ended (completed or abandoned), later
/// starts come first, every ended session left out started no later than
/// any listed one, and the list is cut only at `limit`.
pub proof fn lemma_history_order(s: Seq<(u64, SessionRecord)>, p: Seq<int>, limit: int)
    requires
        is_history_order(s, p, limit),
    ensures
        p.len() <= limit,
        forall|k: int|
            0 <= k < p.len() ==> (#[trigger] s[p[k]]).1.completed_at_ms is Some || s[p[k]].1.abandoned_at_ms is Some,
        forall|k: int, l: int|
            0 <= k < l < p.len() ==> (#[trigger] s[p[k]]).1.started_at_ms >= (#[trigger] s[p[l]]).1.started_at_ms,
        forall|k: int, l: int| 0 <= k < l < p.len() ==> #[trigger] p[k] != #[trigger] p[l],
        forall|k: int, j: int|
            0 <= k < p.len() && 0 <= j < s.len() && ((#[trigger] s[j]).1.completed_at_ms is Some
                || s[j].1.abandoned_at_ms is Some) && !p.contains(j) ==> s[#[trigger] p[k]].1.started_at_ms
                >= s[j].1.started_at_ms,
        p.len() < limit ==> forall|j: int|
            0 <= j < s.len() && ((#[trigger] s[j]).1.completed_at_ms is Some || s[j].1.abandoned_at_ms is Some)
                ==> p.contains(j),
{
    assert forall|k: int, l: int| 0 <= k < l < p.len() implies #[trigger] p[k] != #[trigger] p[l] by {
        assert(history_before(s, p[k], p[l]));
    }
}

/// The session to resume is one neither completed nor abandoned, started
/// no earlier than any other such session, and the first of those started
/// at that moment.
pub proof fn lemma_latest_active(s: Seq<(u64, SessionRecord)>, i: int)
    requires
        is_latest_active(s, i),
    ensures
        0 <= i < s.len(),
        s[i].1.completed_at_ms is None && s[i].1.abandoned_at_ms is None,
        forall|j: int|
            0 <= j < s.len() && (#[trigger] s[j]).1.completed_at_ms is None && s[j].1.abandoned_at_ms is None
                ==> s[j].1.started_at_ms <= s[i].1.started_at_ms,
        forall|j: int|
            0 <= j < i && (#[trigger] s[j]).1.completed_at_ms is None && s[j].1.abandoned_at_ms is None
                ==> s[j].1.started_at_ms < s[i].1.started_at_ms,
{
    assert forall|j: int|
        0 <= j < s.len() && (#[trigger] s[j]).1.completed_at_ms is None && s[j].1.abandoned_at_ms is None
            implies s[j].1.started_at_ms <= s[i].1.started_at_ms && (j < i ==> s[j].1.started_at_ms
            < s[i].1.started_at_ms) by {
        assert(s[j].1.active());
    }
}

} // verus!

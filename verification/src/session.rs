//! Session and pause records as stored, and the active session with the
//! arithmetic of its clock.

use vstd::prelude::*;

use crate::timer::Phase;

verus! {

/// The phase as it is stored with a session record.
#[derive(Clone, Copy, Debug, PartialEq, Eq, Structural)]
pub enum PhaseKind {
    Work,
    Break,
}

/// The stored kind of a timer phase.
pub open spec fn kind_of(p: Phase) -> PhaseKind {
    match p {
        Phase::Work => PhaseKind::Work,
        Phase::Break => PhaseKind::Break,
    }
}

/// The timer phase of a stored kind.
pub open spec fn phase_of(k: PhaseKind) -> Phase {
    match k {
        PhaseKind::Work => Phase::Work,
        PhaseKind::Break => Phase::Break,
    }
}

impl From<Phase> for PhaseKind {
    fn from(p: Phase) -> (k: PhaseKind) {
        match p {
            Phase::Work => PhaseKind::Work,
            Phase::Break => PhaseKind::Break,
        }
    }
}

impl vstd::std_specs::convert::FromSpecImpl<Phase> for PhaseKind {
    open spec fn obeys_from_spec() -> bool {
        true
    }

    open spec fn from_spec(p: Phase) -> PhaseKind {
        kind_of(p)
    }
}

impl From<PhaseKind> for Phase {
    fn from(k: PhaseKind) -> (p: Phase) {
        match k {
            PhaseKind::Work => Phase::Work,
            PhaseKind::Break => Phase::Break,
        }
    }
}

impl vstd::std_specs::convert::FromSpecImpl<PhaseKind> for Phase {
    open spec fn obeys_from_spec() -> bool {
        true
    }

    open spec fn from_spec(k: PhaseKind) -> Phase {
        phase_of(k)
    }
}

/// Converting a phase to its stored kind and back gives the phase again, and
/// the other way round.
pub proof fn lemma_kind_round_trip(p: Phase, k: PhaseKind)
    ensures
        phase_of(kind_of(p)) == p,
        kind_of(phase_of(k)) == k,
{
}

/// One Work or Break attempt. Created on Start, changed only when it ends,
/// either by running out (`completed_at_ms`) or by being replaced by a new
/// Work session (`abandoned_at_ms`). Only Work sessions carry a task.
#[derive(Clone, Copy, Debug, PartialEq, Eq, Structural)]
pub struct SessionRecord {
    pub phase: PhaseKind,
    pub started_at_ms: i64,
    pub duration_secs: u32,
    pub completed_at_ms: Option<i64>,
    pub abandoned_at_ms: Option<i64>,
    pub task_id: Option<u64>,
}

impl SessionRecord {
    /// A session that has neither completed nor been abandoned.
    pub open spec fn active(self) -> bool {
        self.completed_at_ms is None && self.abandoned_at_ms is None
    }

    /// A session that has ended, one way or the other.
    pub open spec fn terminated(self) -> bool {
        self.completed_at_ms is Some || self.abandoned_at_ms is Some
    }

    pub fn new(phase: PhaseKind, started_at_ms: i64, duration_secs: u32, task_id: Option<u64>) -> (r: Self)
        ensures
            r.phase == phase,
            r.started_at_ms == started_at_ms,
            r.duration_secs == duration_secs,
            r.task_id == task_id,
            r.completed_at_ms is None,
            r.abandoned_at_ms is None,
    {
        SessionRecord {
            phase,
            started_at_ms,
            duration_secs,
            completed_at_ms: None,
            abandoned_at_ms: None,
            task_id,
        }
    }

    pub fn is_active(&self) -> (b: bool)
        ensures
            b == self.active(),
    {
        self.completed_at_ms.is_none() && self.abandoned_at_ms.is_none()
    }

    /// Records that the session ran out at `at_ms`.
    pub fn mark_completed(&mut self, at_ms: i64)
        ensures
            *final(self) == (SessionRecord { completed_at_ms: Some(at_ms), ..*old(self) }),
    {
        self.completed_at_ms = Some(at_ms);
    }

    /// Records that the session was given up at `at_ms`.
    pub fn mark_abandoned(&mut self, at_ms: i64)
        ensures
            *final(self) == (SessionRecord { abandoned_at_ms: Some(at_ms), ..*old(self) }),
    {
        self.abandoned_at_ms = Some(at_ms);
    }
}

/// One pause interval within a session. `resumed_at_ms` is `None` while the
/// user is still paused.
#[derive(Clone, Copy, Debug, PartialEq, Eq, Structural)]
pub struct PauseRecord {
    pub session_id: u64,
    pub paused_at_ms: i64,
    pub resumed_at_ms: Option<i64>,
}

impl PauseRecord {
    /// An open pause of the given session.
    pub fn new(session_id: u64, paused_at_ms: i64) -> (r: Self)
        ensures
            r == (PauseRecord { session_id, paused_at_ms, resumed_at_ms: None }),
    {
        PauseRecord { session_id, paused_at_ms, resumed_at_ms: None }
    }

    /// Closes the pause at `at_ms`.
    pub fn mark_resumed(&mut self, at_ms: i64)
        ensures
            *final(self) == (PauseRecord { resumed_at_ms: Some(at_ms), ..*old(self) }),
    {
        self.resumed_at_ms = Some(at_ms);
    }
}

/// An active (uncompleted) session together with its pause history folded
/// into a sum and the currently open pause.
#[derive(Clone, Copy, Debug)]
pub struct ActiveSession {
    pub session_id: u64,
    pub session: SessionRecord,
    /// Sum of `(resumed_at - paused_at)` for every closed pause.
    pub closed_paused_ms: i64,
    /// `(pause_id, paused_at_ms)` of the currently open pause, if any.
    pub open_pause: Option<(u64, i64)>,
}

/// `x` cut to its low 32 bits, as `as u32` does on a non-negative value.
pub open spec fn low_u32(x: int) -> int {
    x % 0x1_0000_0000
}

impl ActiveSession {
    /// The moment up to which the timer has run: the completion time, else
    /// the start of the open pause, else `now_ms`.
    pub open spec fn endpoint(self, now_ms: i64) -> int {
        match self.session.completed_at_ms {
            Some(c) => c as int,
            None => match self.open_pause {
                Some(p) => p.1 as int,
                None => now_ms as int,
            },
        }
    }

    /// A session that is neither completed nor paused: its clock is running.
    pub open spec fn running(self) -> bool {
        self.session.completed_at_ms is None && self.open_pause is None
    }

    /// The two subtractions of `elapsed_ms` stay within `i64`.
    pub open spec fn elapsed_fits(self, now_ms: i64) -> bool {
        let d = self.endpoint(now_ms) - self.session.started_at_ms;
        &&& i64::MIN <= d <= i64::MAX
        &&& i64::MIN <= d - self.closed_paused_ms <= i64::MAX
    }

    /// Milliseconds of timer progress: time since the start, less closed
    /// pauses, up to the endpoint, and never negative.
    pub open spec fn elapsed_at(self, now_ms: i64) -> int {
        let e = self.endpoint(now_ms) - self.session.started_at_ms - self.closed_paused_ms;
        if e < 0 { 0 } else { e }
    }

    /// Whole seconds left: the duration less the elapsed whole seconds (cut
    /// to 32 bits), never below zero.
    pub open spec fn remaining_at(self, now_ms: i64) -> int {
        let s = low_u32(self.elapsed_at(now_ms) / 1000);
        if s >= self.session.duration_secs { 0 } else { self.session.duration_secs - s }
    }

    /// The session with a pause opened at `paused_at_ms`.
    pub open spec fn paused(self, pause_id: u64, paused_at_ms: i64) -> ActiveSession {
        ActiveSession { open_pause: Some((pause_id, paused_at_ms)), ..self }
    }

    /// The session with its open pause (if any) closed at `now_ms`.
    pub open spec fn resumed(self, now_ms: i64) -> ActiveSession {
        match self.open_pause {
            Some(p) => {
                let gap = now_ms - p.1;
                ActiveSession {
                    open_pause: None,
                    closed_paused_ms: (self.closed_paused_ms + if gap < 0 { 0 } else { gap }) as i64,
                    ..self
                }
            },
            None => self,
        }
    }

    /// The additions of `resume` stay within `i64`.
    pub open spec fn resume_fits(self, now_ms: i64) -> bool {
        match self.open_pause {
            Some(p) => {
                let gap = now_ms - p.1;
                &&& i64::MIN <= gap <= i64::MAX
                &&& self.closed_paused_ms + (if gap < 0 { 0 } else { gap }) <= i64::MAX
            },
            None => true,
        }
    }

    /// The moment at which the session ran out: start plus duration plus the
    /// time spent in closed pauses.
    pub open spec fn run_out_at(self) -> int {
        self.session.started_at_ms + self.session.duration_secs * 1000 + self.closed_paused_ms
    }

    /// Whether `elapsed_ms(now_ms)` and `remaining_secs(now_ms)` can be
    /// computed without overflow.
    pub fn elapsed_in_range(&self, now_ms: i64) -> (b: bool)
        ensures
            b == self.elapsed_fits(now_ms),
    {
        let endpoint: i64 = match self.session.completed_at_ms {
            Some(c) => c,
            None => match self.open_pause {
                Some(p) => p.1,
                None => now_ms,
            },
        };
        let d = endpoint as i128 - self.session.started_at_ms as i128;
        let e = d - self.closed_paused_ms as i128;
        i64::MIN as i128 <= d && d <= i64::MAX as i128 && i64::MIN as i128 <= e && e <= i64::MAX as i128
    }

    /// Whether `resume(now_ms)` can be computed without overflow.
    pub fn resume_in_range(&self, now_ms: i64) -> (b: bool)
        ensures
            b == self.resume_fits(now_ms),
    {
        match self.open_pause {
            Some(p) => {
                let gap = now_ms as i128 - p.1 as i128;
                let add: i128 = if gap < 0 { 0 } else { gap };
                i64::MIN as i128 <= gap && gap <= i64::MAX as i128 && self.closed_paused_ms as i128 + add
                    <= i64::MAX as i128
            },
            None => true,
        }
    }

    /// Whether `run_out_time()` can be computed without overflow.
    pub fn run_out_in_range(&self) -> (b: bool)
        ensures
            b == (i64::MIN <= self.session.started_at_ms + self.session.duration_secs * 1000 <= i64::MAX
                && i64::MIN <= self.run_out_at() <= i64::MAX),
    {
        let a = self.session.started_at_ms as i128 + self.session.duration_secs as i128 * 1000;
        let t = a + self.closed_paused_ms as i128;
        i64::MIN as i128 <= a && a <= i64::MAX as i128 && i64::MIN as i128 <= t && t <= i64::MAX as i128
    }

    pub fn fresh(session_id: u64, session: SessionRecord) -> (a: Self)
        ensures
            a.session_id == session_id,
            a.session == session,
            a.closed_paused_ms == 0,
            a.open_pause is None,
    {
        ActiveSession { session_id, session, closed_paused_ms: 0, open_pause: None }
    }

    /// Milliseconds of timer progress so far. `now_ms` is only consulted when
    /// the session is currently running (not paused, not completed).
    pub fn elapsed_ms(&self, now_ms: i64) -> (e: i64)
        requires
            self.elapsed_fits(now_ms),
        ensures
            e == self.elapsed_at(now_ms),
            e >= 0,
    {
        let endpoint = match self.session.completed_at_ms {
            Some(c) => c,
            None => match self.open_pause {
                Some(p) => p.1,
                None => now_ms,
            },
        };
        let e = endpoint - self.session.started_at_ms - self.closed_paused_ms;
        if e < 0 { 0 } else { e }
    }

    pub fn remaining_secs(&self, now_ms: i64) -> (r: u32)
        requires
            self.elapsed_fits(now_ms),
        ensures
            r == self.remaining_at(now_ms),
            r <= self.session.duration_secs,
    {
        let elapsed_s = ((self.elapsed_ms(now_ms) / 1000) % 0x1_0000_0000) as u32;
        if elapsed_s >= self.session.duration_secs {
            0
        } else {
            self.session.duration_secs - elapsed_s
        }
    }

    pub fn is_paused(&self) -> (b: bool)
        ensures
            b == (self.open_pause is Some),
    {
        self.open_pause.is_some()
    }

    /// Opens a pause with the given id at `paused_at_ms`.
    pub fn pause(self, pause_id: u64, paused_at_ms: i64) -> (a: ActiveSession)
        ensures
            a == self.paused(pause_id, paused_at_ms),
    {
        ActiveSession { open_pause: Some((pause_id, paused_at_ms)), ..self }
    }

    /// Closes the open pause, if any, at `now_ms`: the time paused (if
    /// positive) joins `closed_paused_ms`. Also returns the id of the pause
    /// that was closed.
    pub fn resume(self, now_ms: i64) -> (r: (ActiveSession, Option<u64>))
        requires
            self.resume_fits(now_ms),
        ensures
            r.0 == self.resumed(now_ms),
            r.1 == (match self.open_pause { Some(p) => Some(p.0), None => None::<u64> }),
    {
        match self.open_pause {
            Some((pause_id, paused_at)) => {
                let gap = now_ms - paused_at;
                let add = if gap < 0 { 0 } else { gap };
                (
                    ActiveSession {
                        open_pause: None,
                        closed_paused_ms: self.closed_paused_ms + add,
                        ..self
                    },
                    Some(pause_id),
                )
            },
            None => (self, None),
        }
    }

    /// When a restored session has already run out, the moment at which it
    /// did: start plus duration plus closed pauses.
    pub fn run_out_time(&self) -> (t: i64)
        requires
            i64::MIN <= self.session.started_at_ms + self.session.duration_secs * 1000 <= i64::MAX,
            i64::MIN <= self.run_out_at() <= i64::MAX,
        ensures
            t == self.run_out_at(),
    {
        self.session.started_at_ms + self.session.duration_secs as i64 * 1000 + self.closed_paused_ms
    }
}

/// While a session is paused its clock stands still: opening a pause at
/// `paused_at_ms` fixes the elapsed time at its value at that moment, whatever
/// the current time.
pub proof fn lemma_pause_freezes(a: ActiveSession, pause_id: u64, paused_at_ms: i64, now_ms: i64)
    requires
        a.running(),
    ensures
        a.paused(pause_id, paused_at_ms).elapsed_at(now_ms) == a.elapsed_at(paused_at_ms),
{
}

/// Pausing at `t1` and resuming at a later `t2` leaves a running session whose
/// progress at `t2` is the progress it had at `t1`: the paused time is not
/// counted.
pub proof fn lemma_resume_continues(a: ActiveSession, pause_id: u64, t1: i64, t2: i64)
    requires
        a.running(),
        t1 <= t2,
        a.paused(pause_id, t1).resume_fits(t2),
    ensures
        a.paused(pause_id, t1).resumed(t2).running(),
        a.paused(pause_id, t1).resumed(t2).elapsed_at(t2) == a.elapsed_at(t1),
        a.paused(pause_id, t1).resumed(t2).remaining_at(t2) == a.remaining_at(t1),
{
}

/// On a running session, progress never goes back as time goes on, and (while
/// the elapsed seconds fit in 32 bits) the seconds left never go up.
pub proof fn lemma_running_monotone(a: ActiveSession, n1: i64, n2: i64)
    requires
        a.running(),
        n1 <= n2,
    ensures
        a.elapsed_at(n1) <= a.elapsed_at(n2),
        a.elapsed_at(n2) < 0x1_0000_0000 * 1000 ==> a.remaining_at(n1) >= a.remaining_at(n2),
{
    let e1 = a.elapsed_at(n1);
    let e2 = a.elapsed_at(n2);
    if e2 < 0x1_0000_0000 * 1000 {
        assert(e1 / 1000 <= e2 / 1000) by (nonlinear_arith)
            requires 0 <= e1 <= e2;
        assert(e2 / 1000 < 0x1_0000_0000) by (nonlinear_arith)
            requires 0 <= e2 < 0x1_0000_0000 * 1000;
        assert(0 <= e1 / 1000) by (nonlinear_arith)
            requires 0 <= e1;
    }
}

/// A completed or paused session shows the same progress at every moment.
pub proof fn lemma_stopped_clock(a: ActiveSession, n1: i64, n2: i64)
    requires
        !a.running(),
    ensures
        a.elapsed_at(n1) == a.elapsed_at(n2),
        a.remaining_at(n1) == a.remaining_at(n2),
{
}

/// A running session has exactly run out at `run_out_at`: its progress then is
/// its whole duration and no seconds are left.
pub proof fn lemma_run_out(a: ActiveSession)
    requires
        a.running(),
        i64::MIN <= a.run_out_at() <= i64::MAX,
    ensures
        a.elapsed_at(a.run_out_at() as i64) == a.session.duration_secs * 1000,
        a.remaining_at(a.run_out_at() as i64) == 0,
{
    let d = a.session.duration_secs as int;
    assert((d * 1000) / 1000 == d) by (nonlinear_arith);
    assert(d * 1000 >= 0) by (nonlinear_arith) requires d >= 0;
}

/// A record is active exactly when it has ended in neither way; a new
/// record is active, and marking it completed or abandoned ends it.
pub proof fn lemma_active_records(r: SessionRecord, at_ms: i64)
    ensures
        r.active() == (r.completed_at_ms is None && r.abandoned_at_ms is None),
        r.terminated() == !r.active(),
        !(SessionRecord { completed_at_ms: Some(at_ms), ..r }).active(),
        !(SessionRecord { abandoned_at_ms: Some(at_ms), ..r }).active(),
{
}

/// The clock of a running session: `k` milliseconds after its start plus
/// its closed pauses, it has run `k` milliseconds and has the duration less
/// the whole seconds run left (none once they reach the duration); before
/// that moment it has run nothing.
pub proof fn lemma_running_clock(a: ActiveSession, now_ms: i64)
    requires
        a.running(),
    ensures
        ({
            let k = now_ms - a.session.started_at_ms - a.closed_paused_ms;
            &&& k <= 0 ==> a.elapsed_at(now_ms) == 0 && a.remaining_at(now_ms) == a.session.duration_secs
            &&& k >= 0 ==> a.elapsed_at(now_ms) == k
            &&& 0 <= k && k / 1000 <= a.session.duration_secs ==> a.remaining_at(now_ms)
                == a.session.duration_secs - k / 1000
            &&& 0 <= k < 0x1_0000_0000 * 1000 && k / 1000 >= a.session.duration_secs ==> a.remaining_at(now_ms)
                == 0
        }),
{
    let k = now_ms - a.session.started_at_ms - a.closed_paused_ms;
    if k >= 0 {
        assert(k / 1000 >= 0) by (nonlinear_arith)
            requires k >= 0;
        if k / 1000 <= a.session.duration_secs {
            assert(k / 1000 < 0x1_0000_0000);
        }
        if k < 0x1_0000_0000 * 1000 {
            assert(k / 1000 < 0x1_0000_0000) by (nonlinear_arith)
                requires 0 <= k < 0x1_0000_0000 * 1000;
        }
    }
}

/// A paused session has run up to the start of its pause, and a completed
/// one up to its completion, less closed pauses and never below zero.
pub proof fn lemma_stopped_elapsed(a: ActiveSession, now_ms: i64)
    ensures
        ({
            let upto = |t: int| if t - a.session.started_at_ms - a.closed_paused_ms < 0 {
                0
            } else {
                t - a.session.started_at_ms - a.closed_paused_ms
            };
            &&& a.session.completed_at_ms matches Some(c) ==> a.elapsed_at(now_ms) == upto(c as int)
            &&& a.session.completed_at_ms is None ==> (a.open_pause matches Some(p) ==> a.elapsed_at(now_ms)
                == upto(p.1 as int))
        }),
{
}

/// Opening a pause changes only the open pause. Closing it adds the time
/// paused (never a negative amount) to the closed pauses and leaves none
/// open; with no pause open, resuming changes nothing.
pub proof fn lemma_pause_and_resume_fields(a: ActiveSession, pause_id: u64, paused_at_ms: i64, now_ms: i64)
    requires
        a.resume_fits(now_ms),
    ensures
        a.paused(pause_id, paused_at_ms).session_id == a.session_id,
        a.paused(pause_id, paused_at_ms).session == a.session,
        a.paused(pause_id, paused_at_ms).closed_paused_ms == a.closed_paused_ms,
        a.paused(pause_id, paused_at_ms).open_pause == Some((pause_id, paused_at_ms)),
        a.open_pause is None ==> a.resumed(now_ms) == a,
        a.open_pause matches Some(p) ==> {
            &&& a.resumed(now_ms).open_pause is None
            &&& a.resumed(now_ms).session_id == a.session_id
            &&& a.resumed(now_ms).session == a.session
            &&& a.resumed(now_ms).closed_paused_ms == a.closed_paused_ms + if now_ms > p.1 {
                now_ms - p.1
            } else {
                0
            }
        },
{
}

} // verus!

//! The timer state machine behind the main screen.

use vstd::prelude::*;

use crate::session::{kind_of, phase_of, ActiveSession, PhaseKind, SessionRecord};
use crate::settings::Settings;
use crate::timer::Phase;

verus! {

/// The state behind the timer screen. The user interface drives it: each
/// method is one step of its event handlers, and the value a step returns
/// tells the interface what to do next (store a record, sleep, start a
/// session). Storage and clocks stay outside; their results come back in as
/// arguments.
#[derive(Clone, Copy, Debug)]
pub struct TimerState {
    pub phase: Phase,
    /// What the clock shows.
    pub seconds_left: u32,
    pub is_running: bool,
    /// Completed Work sessions, in total and since local midnight.
    pub completed: u32,
    pub completed_today: u32,
    /// Bumped whenever the clock is started or stopped; a tick loop started
    /// under an older version ends at its next tick.
    pub run_version: u32,
    pub settings: Settings,
    /// The session in flight (running or paused), if any.
    pub active: Option<ActiveSession>,
}

/// What to do after Start/Pause was pressed.
#[derive(Clone, Copy, Debug, PartialEq, Eq, Structural)]
pub enum Toggle {
    /// Record a pause of the active session (if any), then `pause_recorded`.
    Pause,
    /// Call `resume_or_start`, then tick under this version.
    Start(u32),
}

/// What to do after the clock was started.
#[derive(Clone, Copy, Debug, PartialEq, Eq, Structural)]
pub enum Resumed {
    /// The active session continues; close this stored pause, if any.
    Continue(Option<u64>),
    /// There was no session: start a fresh one of this phase.
    StartFresh(Phase),
}

/// What to do after one tick.
#[derive(Clone, Copy, Debug, PartialEq, Eq, Structural)]
pub enum Tick {
    /// The loop is stale or there is no session: end it.
    Stop,
    /// Sleep a second and tick again.
    Wait,
    /// The session has run out: finalize it now, and end the loop.
    Finish,
}

/// What to do after a session was finalized.
#[derive(Clone, Copy, Debug, PartialEq, Eq, Structural)]
pub enum Finalized {
    /// No session was in flight: nothing changed and nothing is to be done.
    Idle,
    /// Store the session with this id as completed; the clock stops.
    Stopped(u64),
    /// Store the session with this id as completed, then start a fresh
    /// session of this phase and tick under this version.
    AutoStart(u64, u32, Phase),
}

/// What to do after a stored active session was loaded at start-up.
#[derive(Clone, Copy, Debug, PartialEq, Eq, Structural)]
pub enum Restored {
    /// It ran out while the app was closed: finalize it as completed at
    /// this moment.
    Finish(i64),
    /// It was running: tick under this version.
    Resume(u32),
    /// It was paused: wait for the user.
    Paused,
}

/// The length in seconds of a phase under `s`.
pub open spec fn phase_secs(s: Settings, p: Phase) -> u32 {
    (s.minutes_of(kind_of(p)) * 60) as u32
}

impl TimerState {
    pub open spec fn initial(settings: Settings) -> TimerState {
        TimerState {
            phase: Phase::Work,
            seconds_left: phase_secs(settings, Phase::Work),
            is_running: false,
            completed: 0,
            completed_today: 0,
            run_version: 0,
            settings,
            active: None,
        }
    }

    /// With no session in flight and the clock stopped, the clock shows the
    /// full length of the current phase.
    pub open spec fn idle_refreshed(self) -> TimerState {
        if self.active is None && !self.is_running {
            TimerState { seconds_left: phase_secs(self.settings, self.phase), ..self }
        } else {
            self
        }
    }

    /// The idle display can be computed.
    pub open spec fn idle_fits(self) -> bool {
        self.active is None && !self.is_running ==> self.settings.fits(kind_of(self.phase))
    }

    pub open spec fn with_settings(self, settings: Settings) -> TimerState {
        TimerState { settings, ..self }.idle_refreshed()
    }

    pub open spec fn toggled(self) -> (TimerState, Toggle) {
        let v = (self.run_version + 1) as u32;
        if self.is_running {
            (TimerState { is_running: false, run_version: v, ..self }, Toggle::Pause)
        } else {
            (TimerState { is_running: true, run_version: v, ..self }, Toggle::Start(v))
        }
    }

    /// The session in flight, if any, with a pause opened at `paused_at_ms`.
    pub open spec fn with_pause(self, pause_id: u64, paused_at_ms: i64) -> TimerState {
        match self.active {
            Some(a) => TimerState { active: Some(a.paused(pause_id, paused_at_ms)), ..self },
            None => self,
        }
    }

    pub open spec fn resumed_or_started(self, now_ms: i64) -> (TimerState, Resumed) {
        match self.active {
            Some(a) => (
                TimerState { active: Some(a.resumed(now_ms)), ..self },
                Resumed::Continue(
                    match a.open_pause {
                        Some(p) => Some(p.0),
                        None => None,
                    },
                ),
            ),
            None => (self, Resumed::StartFresh(self.phase)),
        }
    }

    /// The record of a fresh session of `phase` started at `now_ms`: the
    /// configured length, and the selected task for Work sessions only.
    pub open spec fn planned(self, phase: Phase, now_ms: i64) -> SessionRecord {
        SessionRecord {
            phase: kind_of(phase),
            started_at_ms: now_ms,
            duration_secs: phase_secs(self.settings, phase),
            completed_at_ms: None,
            abandoned_at_ms: None,
            task_id: match phase {
                Phase::Work => self.settings.selected_task_id,
                Phase::Break => None,
            },
        }
    }

    pub open spec fn with_session(self, session_id: u64, session: SessionRecord) -> TimerState {
        TimerState {
            active: Some(
                ActiveSession { session_id, session, closed_paused_ms: 0, open_pause: None },
            ),
            ..self
        }
    }

    pub open spec fn ticked(self, version: u32, now_ms: i64) -> (TimerState, Tick) {
        if self.run_version != version {
            (self, Tick::Stop)
        } else {
            match self.active {
                None => (self, Tick::Stop),
                Some(a) => {
                    let r = a.remaining_at(now_ms) as u32;
                    (
                        TimerState { seconds_left: r, ..self },
                        if r == 0 { Tick::Finish } else { Tick::Wait },
                    )
                },
            }
        }
    }

    /// The session in flight ran out at `completed_at_ms`; with none in
    /// flight nothing changes.
    pub open spec fn finalized(self, completed_at_ms: i64, today_start_ms: i64) -> (TimerState, Finalized) {
        match self.active {
            None => (self, Finalized::Idle),
            Some(a) => self.finished(a, completed_at_ms, today_start_ms),
        }
    }

    /// The session `a` ended at `completed_at_ms`: a Work session counts (and
    /// counts for today if it ended after `today_start_ms`), the phase
    /// switches, the clock shows the next phase's length and the session is
    /// no longer in flight. With auto-start on, the next session starts;
    /// otherwise the clock stops.
    pub open spec fn finished(self, a: ActiveSession, completed_at_ms: i64, today_start_ms: i64) -> (TimerState, Finalized) {
        let work = a.session.phase == PhaseKind::Work;
        let next = phase_of(a.session.phase).following();
        let v = (self.run_version + 1) as u32;
        let base = TimerState {
            completed: if work { (self.completed + 1) as u32 } else { self.completed },
            completed_today: if work && completed_at_ms >= today_start_ms {
                (self.completed_today + 1) as u32
            } else {
                self.completed_today
            },
            phase: next,
            seconds_left: phase_secs(self.settings, next),
            active: None,
            run_version: v,
            ..self
        };
        if self.settings.auto_start_next {
            (base, Finalized::AutoStart(a.session_id, v, next))
        } else {
            (TimerState { is_running: false, ..base }, Finalized::Stopped(a.session_id))
        }
    }

    /// "New Work": the clock runs a Work phase from its full length.
    pub open spec fn working_anew(self) -> (TimerState, u32) {
        let v = (self.run_version + 1) as u32;
        (
            TimerState {
                run_version: v,
                is_running: true,
                phase: Phase::Work,
                seconds_left: phase_secs(self.settings, Phase::Work),
                ..self
            },
            v,
        )
    }

    pub open spec fn restored(self, a: ActiveSession, now_ms: i64) -> (TimerState, Restored) {
        let base = TimerState { phase: phase_of(a.session.phase), active: Some(a), ..self };
        let r = a.remaining_at(now_ms);
        if r == 0 {
            (base, Restored::Finish(a.run_out_at() as i64))
        } else if a.open_pause is None {
            let v = (self.run_version + 1) as u32;
            (
                TimerState { seconds_left: r as u32, run_version: v, is_running: true, ..base },
                Restored::Resume(v),
            )
        } else {
            (TimerState { seconds_left: r as u32, ..base }, Restored::Paused)
        }
    }

    /// The two totals agree: no more Work sessions today than in all.
    pub open spec fn counts_agree(self) -> bool {
        self.completed_today <= self.completed
    }

    pub fn new(settings: Settings) -> (t: TimerState)
        requires
            settings.fits(PhaseKind::Work),
        ensures
            t == TimerState::initial(settings),
    {
        TimerState {
            phase: Phase::Work,
            seconds_left: settings.duration_secs(PhaseKind::Work),
            is_running: false,
            completed: 0,
            completed_today: 0,
            run_version: 0,
            settings,
            active: None,
        }
    }

    fn refresh_idle(&mut self)
        requires
            old(self).idle_fits(),
        ensures
            *final(self) == old(self).idle_refreshed(),
    {
        if self.active.is_none() && !self.is_running {
            self.seconds_left = self.settings.duration_secs(PhaseKind::from(self.phase));
        }
    }

    /// New settings take effect; if no session is in flight the clock shows
    /// the new length of the current phase.
    pub fn apply_settings(&mut self, settings: Settings)
        requires
            (TimerState { settings, ..*old(self) }).idle_fits(),
        ensures
            *final(self) == old(self).with_settings(settings),
    {
        self.settings = settings;
        self.refresh_idle();
    }

    /// The completed Work counts loaded from storage.
    pub fn load_counts(&mut self, total: u32, today: u32)
        ensures
            *final(self) == (TimerState { completed: total, completed_today: today, ..*old(self) }),
    {
        self.completed = total;
        self.completed_today = today;
    }

    /// The session in flight is reported to the task picker by whether
    /// there is one and by its task.
    pub fn active_present(&self) -> (b: bool)
        ensures
            b == (self.active is Some),
    {
        self.active.is_some()
    }

    pub fn active_task_id(&self) -> (t: Option<u64>)
        ensures
            t == (match self.active {
                Some(a) => a.session.task_id,
                None => None,
            }),
    {
        match self.active {
            Some(a) => a.session.task_id,
            None => None,
        }
    }

    /// Start/Pause was pressed.
    pub fn toggle(&mut self) -> (r: Toggle)
        requires
            old(self).run_version < u32::MAX,
        ensures
            (*final(self), r) == old(self).toggled(),
    {
        let v = self.run_version + 1;
        self.run_version = v;
        if self.is_running {
            self.is_running = false;
            Toggle::Pause
        } else {
            self.is_running = true;
            Toggle::Start(v)
        }
    }

    /// The pause of the session in flight was stored under `pause_id` at
    /// `paused_at_ms`. With no session in flight nothing changes.
    pub fn pause_recorded(&mut self, pause_id: u64, paused_at_ms: i64)
        ensures
            *final(self) == old(self).with_pause(pause_id, paused_at_ms),
    {
        if let Some(a) = self.active {
            self.active = Some(a.pause(pause_id, paused_at_ms));
        }
    }

    /// After Start: the active session, if any, leaves its pause at
    /// `now_ms`; otherwise a fresh session of the current phase is due.
    pub fn resume_or_start(&mut self, now_ms: i64) -> (r: Resumed)
        requires
            old(self).active matches Some(a) ==> a.resume_fits(now_ms),
        ensures
            (*final(self), r) == old(self).resumed_or_started(now_ms),
    {
        match self.active {
            Some(a) => {
                let (b, closed) = a.resume(now_ms);
                self.active = Some(b);
                Resumed::Continue(closed)
            },
            None => Resumed::StartFresh(self.phase),
        }
    }

    /// The record to store for a fresh session of `phase` starting at
    /// `now_ms`.
    pub fn plan_session(&self, phase: Phase, now_ms: i64) -> (r: SessionRecord)
        requires
            self.settings.fits(kind_of(phase)),
        ensures
            r == self.planned(phase, now_ms),
    {
        let pk = PhaseKind::from(phase);
        let dur = self.settings.duration_secs(pk);
        let task_id = match pk {
            PhaseKind::Work => self.settings.selected_task_id,
            PhaseKind::Break => None,
        };
        SessionRecord::new(pk, now_ms, dur, task_id)
    }

    /// The fresh session was stored under `session_id` (0 when storing
    /// failed); it is now in flight.
    pub fn session_started(&mut self, session_id: u64, session: SessionRecord)
        ensures
            *final(self) == old(self).with_session(session_id, session),
    {
        self.active = Some(ActiveSession::fresh(session_id, session));
    }

    /// One tick of the loop started under `version`.
    pub fn tick(&mut self, version: u32, now_ms: i64) -> (r: Tick)
        requires
            old(self).run_version == version ==> (old(self).active matches Some(a) ==> a.elapsed_fits(now_ms)),
        ensures
            (*final(self), r) == old(self).ticked(version, now_ms),
    {
        if self.run_version != version {
            return Tick::Stop;
        }
        match self.active {
            None => Tick::Stop,
            Some(a) => {
                let r = a.remaining_secs(now_ms);
                self.seconds_left = r;
                if r == 0 {
                    Tick::Finish
                } else {
                    Tick::Wait
                }
            },
        }
    }

    /// The session in flight ran out at `completed_at_ms`: it leaves the
    /// state, which moves to the next phase; the result names the session
    /// to store as completed. With no session in flight nothing changes.
    pub fn finalize(&mut self, completed_at_ms: i64, today_start_ms: i64) -> (r: Finalized)
        requires
            old(self).active matches Some(a) ==> {
                &&& old(self).run_version < u32::MAX
                &&& a.session.phase == PhaseKind::Work ==> old(self).completed < u32::MAX
                &&& a.session.phase == PhaseKind::Work && completed_at_ms >= today_start_ms
                    ==> old(self).completed_today < u32::MAX
                &&& old(self).settings.fits(kind_of(phase_of(a.session.phase).following()))
            },
        ensures
            (*final(self), r) == old(self).finalized(completed_at_ms, today_start_ms),
    {
        let a = match self.active {
            Some(a) => a,
            None => {
                return Finalized::Idle;
            },
        };
        let work = match a.session.phase {
            PhaseKind::Work => true,
            PhaseKind::Break => false,
        };
        if work {
            self.completed = self.completed + 1;
            if completed_at_ms >= today_start_ms {
                self.completed_today = self.completed_today + 1;
            }
        }
        let next = Phase::from(a.session.phase).next();
        self.phase = next;
        self.seconds_left = self.settings.duration_secs(PhaseKind::from(next));
        self.active = None;
        let v = self.run_version + 1;
        self.run_version = v;
        if self.settings.auto_start_next {
            Finalized::AutoStart(a.session_id, v, next)
        } else {
            self.is_running = false;
            Finalized::Stopped(a.session_id)
        }
    }

    /// "New Work" was pressed: returns the version to tick under once the
    /// fresh Work session is stored.
    pub fn new_work(&mut self) -> (v: u32)
        requires
            old(self).run_version < u32::MAX,
            old(self).settings.fits(PhaseKind::Work),
        ensures
            (*final(self), v) == old(self).working_anew(),
    {
        let v = self.run_version + 1;
        self.run_version = v;
        self.is_running = true;
        self.phase = Phase::Work;
        self.seconds_left = self.settings.duration_secs(PhaseKind::Work);
        v
    }

    /// The session in flight is given up (by "New Work"): it leaves the
    /// state and is handed back so that its open pause can be closed and
    /// the session stored as abandoned.
    pub fn abandon_active(&mut self) -> (a: Option<ActiveSession>)
        ensures
            a == old(self).active,
            *final(self) == (TimerState { active: None, ..*old(self) }),
    {
        let a = self.active;
        self.active = None;
        a
    }

    /// A stored active session `a` was found at start-up, at `now_ms`.
    pub fn restore(&mut self, a: ActiveSession, now_ms: i64) -> (r: Restored)
        requires
            a.elapsed_fits(now_ms),
            a.remaining_at(now_ms) == 0 ==> i64::MIN <= a.session.started_at_ms + a.session.duration_secs
                * 1000 <= i64::MAX && i64::MIN <= a.run_out_at() <= i64::MAX,
            a.remaining_at(now_ms) != 0 && a.open_pause is None ==> old(self).run_version < u32::MAX,
        ensures
            (*final(self), r) == old(self).restored(a, now_ms),
    {
        self.phase = Phase::from(a.session.phase);
        let remaining = a.remaining_secs(now_ms);
        if remaining == 0 {
            let t = a.run_out_time();
            self.active = Some(a);
            Restored::Finish(t)
        } else {
            self.seconds_left = remaining;
            self.active = Some(a);
            if !a.is_paused() {
                let v = self.run_version + 1;
                self.run_version = v;
                self.is_running = true;
                Restored::Resume(v)
            } else {
                Restored::Paused
            }
        }
    }
}

/// A tick loop whose version is no longer current stops at its next tick and
/// changes nothing.
pub proof fn lemma_stale_tick_stops(s: TimerState, version: u32, now_ms: i64)
    requires
        s.run_version != version,
    ensures
        s.ticked(version, now_ms) == (s, Tick::Stop),
{
}

/// Start/Pause, "New Work" and the end of a session each retire the tick
/// loop that was running before them.
pub proof fn lemma_transitions_retire_loops(s: TimerState, completed_at_ms: i64, today_start_ms: i64, now_ms: i64)
    requires
        s.run_version < u32::MAX,
    ensures
        s.toggled().0.ticked(s.run_version, now_ms).1 == Tick::Stop,
        s.working_anew().0.ticked(s.run_version, now_ms).1 == Tick::Stop,
        s.finalized(completed_at_ms, today_start_ms).0.ticked(s.run_version, now_ms).1 == Tick::Stop,
{
}

/// Pausing a running session at `t1` and starting again at a later `t2`
/// continues it where it stood: the first tick under the new version shows
/// the seconds that were left at `t1`.
pub proof fn lemma_pause_then_start(s: TimerState, a: ActiveSession, pause_id: u64, t1: i64, t2: i64)
    requires
        s.is_running,
        s.run_version < u32::MAX - 1,
        s.active == Some(a),
        a.running(),
        t1 <= t2,
        a.paused(pause_id, t1).resume_fits(t2),
    ensures
        ({
            let s1 = s.toggled();
            let s2 = s1.0.with_pause(pause_id, t1);
            let s3 = s2.toggled();
            let s4 = s3.0.resumed_or_started(t2);
            &&& s1.1 == Toggle::Pause
            &&& !s1.0.is_running
            &&& s3.1 == Toggle::Start(s3.0.run_version)
            &&& s3.0.is_running
            &&& s4.1 == Resumed::Continue(Some(pause_id))
            &&& s4.0.active.unwrap().running()
            &&& s4.0.ticked(s3.0.run_version, t2).0.seconds_left == a.remaining_at(t1)
        }),
{
    crate::session::lemma_resume_continues(a, pause_id, t1, t2);
    let r = a.remaining_at(t1);
    assert(r <= a.session.duration_secs);
}

/// Every step keeps the day's count within the total count.
pub proof fn lemma_counts_agree_kept(
    s: TimerState,
    a: ActiveSession,
    completed_at_ms: i64,
    today_start_ms: i64,
    version: u32,
    now_ms: i64,
    settings: Settings,
)
    requires
        s.counts_agree(),
        s.completed < u32::MAX,
    ensures
        s.finalized(completed_at_ms, today_start_ms).0.counts_agree(),
        s.toggled().0.counts_agree(),
        s.ticked(version, now_ms).0.counts_agree(),
        s.resumed_or_started(now_ms).0.counts_agree(),
        s.working_anew().0.counts_agree(),
        s.restored(a, now_ms).0.counts_agree(),
        s.with_settings(settings).counts_agree(),
{
}

/// Finishing a session switches to the other phase and shows its full
/// length; only a finished Work session adds to the total.
pub proof fn lemma_finish_alternates(s: TimerState, a: ActiveSession, completed_at_ms: i64, today_start_ms: i64)
    requires
        s.active == Some(a),
        s.completed < u32::MAX,
    ensures
        ({
            let (t, r) = s.finalized(completed_at_ms, today_start_ms);
            &&& r == if s.settings.auto_start_next {
                Finalized::AutoStart(a.session_id, t.run_version, t.phase)
            } else {
                Finalized::Stopped(a.session_id)
            }
            &&& t.phase == phase_of(a.session.phase).following()
            &&& t.seconds_left == phase_secs(s.settings, t.phase)
            &&& t.active is None
            &&& t.completed == s.completed + if a.session.phase == PhaseKind::Work { 1int } else { 0int }
        }),
{
}

/// With nothing in flight, changing the settings shows the new length of
/// the current phase; during a session the clock is left alone.
pub proof fn lemma_settings_reach_idle_clock(s: TimerState, settings: Settings)
    ensures
        s.active is None && !s.is_running ==> s.with_settings(settings).seconds_left == phase_secs(settings, s.phase),
        s.active is Some || s.is_running ==> s.with_settings(settings).seconds_left == s.seconds_left,
{
}

/// A running session found at start-up that ran out while the app was
/// closed is finalized as completed at exactly the moment it ran out.
pub proof fn lemma_restore_run_out(s: TimerState, a: ActiveSession, now_ms: i64)
    requires
        a.running(),
        a.remaining_at(now_ms) == 0,
        i64::MIN <= a.run_out_at() <= i64::MAX,
    ensures
        s.restored(a, now_ms).1 == Restored::Finish(a.run_out_at() as i64),
        a.elapsed_at(a.run_out_at() as i64) == a.session.duration_secs * 1000,
        a.remaining_at(a.run_out_at() as i64) == 0,
{
    crate::session::lemma_run_out(a);
}

/// "New Work" always runs a Work phase from its full configured length.
pub proof fn lemma_new_work_starts_work(s: TimerState)
    ensures
        s.working_anew().0.phase == Phase::Work,
        s.working_anew().0.is_running,
        s.working_anew().0.seconds_left == phase_secs(s.settings, Phase::Work),
{
}

/// With no session in flight, finishing and recording a pause change
/// nothing.
pub proof fn lemma_nothing_in_flight(s: TimerState, completed_at_ms: i64, today_start_ms: i64, pause_id: u64, paused_at_ms: i64)
    requires
        s.active is None,
    ensures
        s.finalized(completed_at_ms, today_start_ms) == (s, Finalized::Idle),
        s.with_pause(pause_id, paused_at_ms) == s,
{
}

/// The tick loop counts down: on a running session, each tick under the
/// current version shows the seconds left at its moment, a later tick never
/// shows more (while the elapsed seconds fit in 32 bits), and the loop is
/// told to finish exactly when nothing is left.
pub proof fn lemma_ticks_count_down(s: TimerState, a: ActiveSession, n1: i64, n2: i64)
    requires
        s.active == Some(a),
        a.running(),
        n1 <= n2,
        a.elapsed_at(n2) < 0x1_0000_0000 * 1000,
    ensures
        ({
            let (s1, r1) = s.ticked(s.run_version, n1);
            let (s2, r2) = s1.ticked(s.run_version, n2);
            &&& s1.seconds_left == a.remaining_at(n1)
            &&& s2.seconds_left == a.remaining_at(n2)
            &&& s2.seconds_left <= s1.seconds_left
            &&& (r1 == Tick::Finish <==> a.remaining_at(n1) == 0)
            &&& (r1 == Tick::Wait <==> a.remaining_at(n1) != 0)
            &&& s1.active == s.active
        }),
{
    crate::session::lemma_running_monotone(a, n1, n2);
    assert(a.remaining_at(n1) <= a.session.duration_secs);
    assert(a.remaining_at(n2) <= a.session.duration_secs);
}

/// The length in seconds that the clock shows for a phase: the configured
/// Work or Break minutes times sixty.
pub open spec fn length_secs(s: Settings, p: Phase) -> int {
    if p == Phase::Work { s.work_minutes * 60 } else { s.break_minutes * 60 }
}

/// The two phases in their stored form, and the phase after each.
pub proof fn lemma_phase_tables()
    ensures
        kind_of(Phase::Work) == PhaseKind::Work,
        kind_of(Phase::Break) == PhaseKind::Break,
        phase_of(PhaseKind::Work) == Phase::Work,
        phase_of(PhaseKind::Break) == Phase::Break,
        Phase::Work.following() == Phase::Break,
        Phase::Break.following() == Phase::Work,
{
}

/// A fresh timer: a stopped Work phase showing the configured Work length,
/// nothing counted and nothing in flight.
pub proof fn lemma_initial(settings: Settings)
    requires
        settings.fits(PhaseKind::Work),
    ensures
        ({
            let t = TimerState::initial(settings);
            &&& t.phase == Phase::Work
            &&& t.seconds_left == settings.work_minutes * 60
            &&& !t.is_running
            &&& t.completed == 0 && t.completed_today == 0
            &&& t.run_version == 0
            &&& t.settings == settings
            &&& t.active is None
        }),
{
}

/// New settings are kept; the clock shows the new length of the current
/// phase when idle and is left alone otherwise; nothing else changes.
pub proof fn lemma_settings_step(s: TimerState, settings: Settings)
    requires
        s.active is None && !s.is_running ==> settings.fits(kind_of(s.phase)),
    ensures
        ({
            let t = s.with_settings(settings);
            &&& t.settings == settings
            &&& t.seconds_left == if s.active is None && !s.is_running {
                length_secs(settings, s.phase)
            } else {
                s.seconds_left as int
            }
            &&& t == (TimerState { settings: t.settings, seconds_left: t.seconds_left, ..s })
        }),
{
}

/// Start/Pause flips the running flag and bumps the version; Start hands
/// back the new version to tick under; nothing else changes.
pub proof fn lemma_toggle_step(s: TimerState)
    requires
        s.run_version < u32::MAX,
    ensures
        ({
            let (t, r) = s.toggled();
            &&& t.run_version == s.run_version + 1
            &&& t.is_running == !s.is_running
            &&& r == if s.is_running { Toggle::Pause } else { Toggle::Start(t.run_version) }
            &&& t == (TimerState { run_version: t.run_version, is_running: t.is_running, ..s })
        }),
{
}

/// A stored pause opens on the session in flight and on nothing else; the
/// rest of the state is unchanged.
pub proof fn lemma_pause_step(s: TimerState, pause_id: u64, paused_at_ms: i64)
    ensures
        ({
            let t = s.with_pause(pause_id, paused_at_ms);
            &&& s.active is None ==> t == s
            &&& s.active matches Some(a) ==> {
                &&& t.active matches Some(b) && b.session_id == a.session_id && b.session == a.session
                    && b.closed_paused_ms == a.closed_paused_ms && b.open_pause == Some((pause_id, paused_at_ms))
                &&& t == (TimerState { active: t.active, ..s })
            }
        }),
{
}

/// Start with nothing in flight asks for a fresh session of the current
/// phase and changes nothing; with a session in flight it closes its open
/// pause (adding the time paused, never a negative amount) and reports
/// which stored pause to close, without counting the paused time.
pub proof fn lemma_resume_step(s: TimerState, now_ms: i64)
    requires
        s.active matches Some(a) ==> a.resume_fits(now_ms),
    ensures
        ({
            let (t, r) = s.resumed_or_started(now_ms);
            &&& s.active is None ==> t == s && r == Resumed::StartFresh(s.phase)
            &&& s.active matches Some(a) ==> {
                &&& t == (TimerState { active: t.active, ..s })
                &&& t.active matches Some(b) && b.session_id == a.session_id && b.session == a.session
                    && b.open_pause is None
                &&& match a.open_pause {
                    Some(p) => {
                        &&& r == Resumed::Continue(Some(p.0))
                        &&& t.active.unwrap().closed_paused_ms == a.closed_paused_ms
                            + if now_ms >= p.1 { now_ms - p.1 } else { 0 }
                        &&& (a.session.completed_at_ms is None && p.1 <= now_ms
                            ==> t.active.unwrap().elapsed_at(now_ms) == a.elapsed_at(now_ms))
                    },
                    None => r == Resumed::Continue(None) && t.active.unwrap() == a,
                }
            }
        }),
{
}

/// A fresh session of `phase` starts now, runs for the configured length of
/// that phase, has not ended, and carries the selected task only if it is a
/// Work session.
pub proof fn lemma_plan_step(s: TimerState, phase: Phase, now_ms: i64)
    requires
        s.settings.fits(kind_of(phase)),
    ensures
        ({
            let r = s.planned(phase, now_ms);
            &&& r.phase == (if phase == Phase::Work { PhaseKind::Work } else { PhaseKind::Break })
            &&& r.started_at_ms == now_ms
            &&& r.duration_secs == length_secs(s.settings, phase)
            &&& r.completed_at_ms is None && r.abandoned_at_ms is None
            &&& r.task_id == if phase == Phase::Work { s.settings.selected_task_id } else { None }
        }),
{
}

/// A stored fresh session becomes the one in flight, with no pauses; the
/// rest of the state is unchanged.
pub proof fn lemma_session_step(s: TimerState, session_id: u64, session: SessionRecord)
    ensures
        ({
            let t = s.with_session(session_id, session);
            &&& t.active matches Some(a) && a.session_id == session_id && a.session == session
                && a.closed_paused_ms == 0 && a.open_pause is None
            &&& t == (TimerState { active: t.active, ..s })
        }),
{
}

/// A tick under the current version with a session in flight shows the
/// seconds left at its moment and asks to finish exactly when none are left;
/// any other tick stops the loop and changes nothing.
pub proof fn lemma_tick_step(s: TimerState, version: u32, now_ms: i64)
    ensures
        ({
            let (t, r) = s.ticked(version, now_ms);
            &&& (version != s.run_version || s.active is None) ==> t == s && r == Tick::Stop
            &&& (version == s.run_version && s.active is Some) ==> {
                let a = s.active.unwrap();
                &&& t.seconds_left == a.remaining_at(now_ms)
                &&& (r == Tick::Finish) == (a.remaining_at(now_ms) == 0)
                &&& r != Tick::Stop
                &&& t == (TimerState { seconds_left: t.seconds_left, ..s })
            }
        }),
{
    if version == s.run_version && s.active is Some {
        let a = s.active.unwrap();
        assert(a.remaining_at(now_ms) <= a.session.duration_secs);
    }
}

/// Finishing with nothing in flight changes nothing. Finishing the session
/// in flight counts it if it is a Work session (and for today exactly when
/// it ended at or after the day's start), whatever auto-start says; the
/// phase switches to the other one and the clock shows its full length; the
/// session leaves the state and the version moves on. With auto-start the
/// clock keeps running and the next session starts under the new version;
/// otherwise the clock stops.
pub proof fn lemma_finalize_step(s: TimerState, completed_at_ms: i64, today_start_ms: i64)
    requires
        s.active matches Some(a) ==> {
            &&& s.run_version < u32::MAX
            &&& a.session.phase == PhaseKind::Work ==> s.completed < u32::MAX
            &&& a.session.phase == PhaseKind::Work && completed_at_ms >= today_start_ms ==> s.completed_today
                < u32::MAX
            &&& s.settings.fits(kind_of(phase_of(a.session.phase).following()))
        },
    ensures
        ({
            let (t, r) = s.finalized(completed_at_ms, today_start_ms);
            &&& s.active is None ==> t == s && r == Finalized::Idle
            &&& s.active matches Some(a) ==> {
                let work = a.session.phase == PhaseKind::Work;
                &&& t.completed == s.completed + if work { 1int } else { 0int }
                &&& t.completed_today == s.completed_today + if work && completed_at_ms >= today_start_ms {
                    1int
                } else {
                    0int
                }
                &&& t.phase == if work { Phase::Break } else { Phase::Work }
                &&& t.seconds_left == length_secs(s.settings, t.phase)
                &&& t.active is None
                &&& t.run_version == s.run_version + 1
                &&& t.is_running == (s.settings.auto_start_next && s.is_running)
                &&& t.settings == s.settings
                &&& r == if s.settings.auto_start_next {
                    Finalized::AutoStart(a.session_id, t.run_version, t.phase)
                } else {
                    Finalized::Stopped(a.session_id)
                }
            }
        }),
{
}

/// "New Work" runs a Work phase from its configured length under a new
/// version, which it hands back; the session in flight is left for
/// `abandon_active`. A tick under that version once the fresh Work session
/// is in flight counts it down rather than stopping.
pub proof fn lemma_new_work_step(s: TimerState, session_id: u64, now_ms: i64, tick_ms: i64)
    requires
        s.run_version < u32::MAX,
        s.settings.fits(PhaseKind::Work),
    ensures
        ({
            let (t, v) = s.working_anew();
            &&& v == t.run_version
            &&& t.run_version == s.run_version + 1
            &&& t.is_running
            &&& t.phase == Phase::Work
            &&& t.seconds_left == s.settings.work_minutes * 60
            &&& t == (TimerState {
                run_version: t.run_version,
                is_running: true,
                phase: Phase::Work,
                seconds_left: t.seconds_left,
                ..s
            })
            &&& t.with_session(session_id, t.planned(Phase::Work, now_ms)).ticked(v, tick_ms).1 != Tick::Stop
        }),
{
    lemma_tick_step(t_new_work(s, session_id, now_ms), (s.run_version + 1) as u32, tick_ms);
}

spec fn t_new_work(s: TimerState, session_id: u64, now_ms: i64) -> TimerState {
    let t = s.working_anew().0;
    t.with_session(session_id, t.planned(Phase::Work, now_ms))
}

/// A session found at start-up becomes the one in flight and sets the
/// phase. If it ran out while closed it is to be finished at the moment it
/// ran out; if it is running it keeps running under a new version, which is
/// handed back and under which the next tick counts it down; if it is
/// paused it waits. Either way the clock shows the seconds it has left.
pub proof fn lemma_restore_step(s: TimerState, a: ActiveSession, now_ms: i64, tick_ms: i64)
    requires
        a.remaining_at(now_ms) != 0 && a.open_pause is None ==> s.run_version < u32::MAX,
    ensures
        ({
            let (t, r) = s.restored(a, now_ms);
            &&& t.active == Some(a)
            &&& t.phase == if a.session.phase == PhaseKind::Work { Phase::Work } else { Phase::Break }
            &&& t.completed == s.completed && t.completed_today == s.completed_today
            &&& t.settings == s.settings
            &&& a.remaining_at(now_ms) == 0 ==> {
                &&& r == Restored::Finish(a.run_out_at() as i64)
                &&& t.run_version == s.run_version && t.is_running == s.is_running
            }
            &&& a.remaining_at(now_ms) != 0 ==> t.seconds_left == a.remaining_at(now_ms)
            &&& a.remaining_at(now_ms) != 0 && a.open_pause is None ==> {
                &&& r == Restored::Resume(t.run_version)
                &&& t.run_version == s.run_version + 1
                &&& t.is_running
                &&& t.ticked(t.run_version, tick_ms).1 != Tick::Stop
            }
            &&& a.remaining_at(now_ms) != 0 && a.open_pause is Some ==> {
                &&& r == Restored::Paused
                &&& t.run_version == s.run_version && t.is_running == s.is_running
            }
        }),
{
    let t = s.restored(a, now_ms).0;
    lemma_tick_step(t, t.run_version, tick_ms);
    assert(a.remaining_at(now_ms) <= a.session.duration_secs);
}

} // verus!

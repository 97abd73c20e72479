use pomodoro::controller::{Finalized, Restored, Resumed, Tick, TimerState, Toggle};
use pomodoro::session::{ActiveSession, PhaseKind, SessionRecord};
use pomodoro::settings::Settings;
use pomodoro::timer::Phase;

fn idle() -> TimerState {
    TimerState::new(Settings::default())
}

#[test]
fn initial_state() {
    let t = idle();
    assert_eq!(t.phase, Phase::Work);
    assert_eq!(t.seconds_left, 1_500);
    assert!(!t.is_running);
    assert_eq!(t.completed, 0);
    assert_eq!(t.run_version, 0);
    assert!(!t.active_present());
    assert_eq!(t.active_task_id(), None);
}

#[test]
fn settings_show_on_idle_clock() {
    let mut t = idle();
    t.apply_settings(Settings::default().with_work_minutes(40));
    assert_eq!(t.seconds_left, 2_400);
    t.phase = Phase::Break;
    t.apply_settings(Settings::default().with_break_minutes(10));
    assert_eq!(t.seconds_left, 600);
}

#[test]
fn settings_leave_running_clock_alone() {
    let mut t = idle();
    t.toggle();
    t.seconds_left = 77;
    t.apply_settings(Settings::default().with_work_minutes(40));
    assert_eq!(t.seconds_left, 77);
}

#[test]
fn start_fresh_work_session_and_tick() {
    let mut t = idle();
    t.apply_settings(Settings::default().with_selected_task(Some(3)));
    let v = match t.toggle() {
        Toggle::Start(v) => v,
        Toggle::Pause => panic!("expected start"),
    };
    assert!(t.is_running);
    assert_eq!(t.resume_or_start(1_000), Resumed::StartFresh(Phase::Work));
    let rec = t.plan_session(Phase::Work, 1_000);
    assert_eq!(rec.duration_secs, 1_500);
    assert_eq!(rec.task_id, Some(3));
    assert_eq!(rec.started_at_ms, 1_000);
    t.session_started(11, rec);
    assert!(t.active_present());
    assert_eq!(t.active_task_id(), Some(3));
    assert_eq!(t.tick(v, 61_000), Tick::Wait);
    assert_eq!(t.seconds_left, 1_440);
    assert_eq!(t.tick(v, 1_501_000), Tick::Finish);
    assert_eq!(t.seconds_left, 0);
}

#[test]
fn break_sessions_carry_no_task() {
    let mut t = idle();
    t.apply_settings(Settings::default().with_selected_task(Some(3)));
    let rec = t.plan_session(Phase::Break, 0);
    assert_eq!(rec.task_id, None);
    assert_eq!(rec.phase, PhaseKind::Break);
    assert_eq!(rec.duration_secs, 300);
}

#[test]
fn stale_tick_loop_stops() {
    let mut t = idle();
    let v = match t.toggle() { Toggle::Start(v) => v, _ => panic!() };
    t.session_started(1, t.plan_session(Phase::Work, 0));
    t.toggle();
    let before = t.seconds_left;
    assert_eq!(t.tick(v, 10_000), Tick::Stop);
    assert_eq!(t.seconds_left, before);
}

#[test]
fn tick_without_session_stops() {
    let mut t = idle();
    let v = match t.toggle() { Toggle::Start(v) => v, _ => panic!() };
    assert_eq!(t.tick(v, 0), Tick::Stop);
}

#[test]
fn pause_then_start_continues() {
    let mut t = idle();
    let v1 = match t.toggle() { Toggle::Start(v) => v, _ => panic!() };
    t.session_started(1, t.plan_session(Phase::Work, 0));
    assert_eq!(t.tick(v1, 100_000), Tick::Wait);
    assert_eq!(t.seconds_left, 1_400);
    assert_eq!(t.toggle(), Toggle::Pause);
    assert!(!t.is_running);
    t.pause_recorded(8, 100_000);
    assert!(t.active.unwrap().is_paused());
    let v2 = match t.toggle() { Toggle::Start(v) => v, _ => panic!() };
    assert_eq!(t.resume_or_start(400_000), Resumed::Continue(Some(8)));
    assert_eq!(t.active.unwrap().closed_paused_ms, 300_000);
    assert_eq!(t.tick(v2, 400_000), Tick::Wait);
    assert_eq!(t.seconds_left, 1_400);
}

#[test]
fn finishing_work_counts_and_switches() {
    let mut t = idle();
    let v = match t.toggle() { Toggle::Start(v) => v, _ => panic!() };
    t.session_started(1, t.plan_session(Phase::Work, 0));
    assert_eq!(t.tick(v, 1_500_000), Tick::Finish);
    assert_eq!(t.finalize(1_500_000, 1_000_000), Finalized::Stopped(1));
    assert_eq!(t.completed, 1);
    assert_eq!(t.completed_today, 1);
    assert_eq!(t.phase, Phase::Break);
    assert_eq!(t.seconds_left, 300);
    assert!(!t.is_running);
    assert!(t.active.is_none());
    assert_eq!(t.tick(v, 1_600_000), Tick::Stop);
}

#[test]
fn finishing_before_today_counts_total_only() {
    let mut t = idle();
    t.session_started(1, SessionRecord::new(PhaseKind::Work, 0, 60, None));
    t.finalize(60_000, 100_000);
    assert_eq!(t.completed, 1);
    assert_eq!(t.completed_today, 0);
}

#[test]
fn finishing_break_does_not_count() {
    let mut t = idle();
    t.session_started(1, SessionRecord::new(PhaseKind::Break, 0, 300, None));
    t.finalize(300_000, 0);
    assert_eq!(t.completed, 0);
    assert_eq!(t.phase, Phase::Work);
    assert_eq!(t.seconds_left, 1_500);
}

#[test]
fn auto_start_keeps_running() {
    let mut t = idle();
    t.apply_settings(Settings::default().with_auto_start_next(true));
    let v = match t.toggle() { Toggle::Start(v) => v, _ => panic!() };
    t.session_started(1, t.plan_session(Phase::Work, 0));
    match t.finalize(1_500_000, 0) {
        Finalized::AutoStart(id, v2, p) => {
            assert_eq!(id, 1);
            assert_eq!(v2, v + 1);
            assert_eq!(p, Phase::Break);
        }
        _ => panic!("expected auto start"),
    }
    assert!(t.is_running);
}

#[test]
fn new_work_abandons_and_restarts() {
    let mut t = idle();
    t.phase = Phase::Break;
    t.session_started(5, t.plan_session(Phase::Break, 0));
    let v = t.new_work();
    assert_eq!(v, 1);
    assert_eq!(t.phase, Phase::Work);
    assert!(t.is_running);
    assert_eq!(t.seconds_left, 1_500);
    let gone = t.abandon_active().unwrap();
    assert_eq!(gone.session_id, 5);
    assert!(t.active.is_none());
    assert_eq!(t.abandon_active().map(|a| a.session_id), None);
}

#[test]
fn restore_running_session() {
    let mut t = idle();
    let a = ActiveSession::fresh(2, SessionRecord::new(PhaseKind::Break, 0, 300, None));
    assert_eq!(t.restore(a, 100_000), Restored::Resume(1));
    assert_eq!(t.phase, Phase::Break);
    assert_eq!(t.seconds_left, 200);
    assert!(t.is_running);
}

#[test]
fn restore_paused_session() {
    let mut t = idle();
    let a = ActiveSession::fresh(2, SessionRecord::new(PhaseKind::Work, 0, 300, None)).pause(4, 50_000);
    assert_eq!(t.restore(a, 900_000), Restored::Paused);
    assert_eq!(t.seconds_left, 250);
    assert!(!t.is_running);
}

#[test]
fn restore_run_out_session() {
    let mut t = idle();
    let mut a = ActiveSession::fresh(2, SessionRecord::new(PhaseKind::Work, 1_000, 300, None));
    a.closed_paused_ms = 20_000;
    assert_eq!(t.restore(a, 10_000_000), Restored::Finish(321_000));
    assert_eq!(t.finalize(321_000, 0), Finalized::Stopped(2));
    assert_eq!(t.completed, 1);
}

#[test]
fn counts_loaded() {
    let mut t = idle();
    t.load_counts(12, 3);
    assert_eq!(t.completed, 12);
    assert_eq!(t.completed_today, 3);
}

#[test]
fn nothing_in_flight_changes_nothing() {
    let mut t = idle();
    assert_eq!(t.finalize(1_000, 0), Finalized::Idle);
    assert_eq!(t.completed, 0);
    assert_eq!(t.phase, Phase::Work);
    assert_eq!(t.run_version, 0);
    assert_eq!(t.seconds_left, 1_500);
    t.pause_recorded(3, 1_000);
    assert!(t.active.is_none());
}

#[test]
fn ticks_count_down_to_finish() {
    let mut t = idle();
    let v = match t.toggle() { Toggle::Start(v) => v, _ => panic!() };
    t.session_started(1, SessionRecord::new(PhaseKind::Work, 0, 5, None));
    let mut last = u32::MAX;
    let mut now = 0;
    loop {
        let r = t.tick(v, now);
        assert!(t.seconds_left <= last);
        last = t.seconds_left;
        if r == Tick::Finish {
            assert_eq!(t.seconds_left, 0);
            break;
        }
        assert_eq!(r, Tick::Wait);
        now += 1_000;
    }
    assert_eq!(now, 5_000);
}

use pomodoro::session::{ActiveSession, PauseRecord, PhaseKind, SessionRecord};
use pomodoro::timer::Phase;

#[test]
fn phase_labels() {
    assert_eq!(Phase::Work.label(), "Work");
    assert_eq!(Phase::Break.label(), "Break");
}

#[test]
fn phase_next_alternates() {
    assert_eq!(Phase::Work.next(), Phase::Break);
    assert_eq!(Phase::Break.next(), Phase::Work);
    assert_eq!(Phase::Work.next().next(), Phase::Work);
}

#[test]
fn phase_kind_round_trip() {
    assert_eq!(PhaseKind::from(Phase::Work), PhaseKind::Work);
    assert_eq!(PhaseKind::from(Phase::Break), PhaseKind::Break);
    assert_eq!(Phase::from(PhaseKind::from(Phase::Break)), Phase::Break);
    assert_eq!(Phase::from(PhaseKind::Work), Phase::Work);
}

#[test]
fn new_session_is_active() {
    let r = SessionRecord::new(PhaseKind::Work, 1_000, 1_500, Some(3));
    assert_eq!(r.phase, PhaseKind::Work);
    assert_eq!(r.started_at_ms, 1_000);
    assert_eq!(r.duration_secs, 1_500);
    assert_eq!(r.task_id, Some(3));
    assert_eq!(r.completed_at_ms, None);
    assert_eq!(r.abandoned_at_ms, None);
    assert!(r.is_active());
}

#[test]
fn completed_and_abandoned_sessions_are_not_active() {
    let mut a = SessionRecord::new(PhaseKind::Work, 0, 60, None);
    a.mark_completed(60_000);
    assert_eq!(a.completed_at_ms, Some(60_000));
    assert!(!a.is_active());
    let mut b = SessionRecord::new(PhaseKind::Break, 0, 60, None);
    b.mark_abandoned(5_000);
    assert_eq!(b.abandoned_at_ms, Some(5_000));
    assert_eq!(b.completed_at_ms, None);
    assert!(!b.is_active());
}

#[test]
fn pause_record_resumes() {
    let mut p = PauseRecord::new(4, 10_000);
    assert_eq!(p, PauseRecord { session_id: 4, paused_at_ms: 10_000, resumed_at_ms: None });
    p.mark_resumed(12_500);
    assert_eq!(p.resumed_at_ms, Some(12_500));
    assert_eq!(p.paused_at_ms, 10_000);
}

#[test]
fn fresh_active_session() {
    let r = SessionRecord::new(PhaseKind::Work, 1_000, 60, None);
    let a = ActiveSession::fresh(9, r);
    assert_eq!(a.session_id, 9);
    assert_eq!(a.closed_paused_ms, 0);
    assert_eq!(a.open_pause, None);
    assert!(!a.is_paused());
}

#[test]
fn elapsed_while_running() {
    let a = ActiveSession::fresh(1, SessionRecord::new(PhaseKind::Work, 1_000, 60, None));
    assert_eq!(a.elapsed_ms(31_500), 30_500);
    assert_eq!(a.remaining_secs(31_500), 30);
}

#[test]
fn elapsed_never_negative() {
    let a = ActiveSession::fresh(1, SessionRecord::new(PhaseKind::Work, 10_000, 60, None));
    assert_eq!(a.elapsed_ms(5_000), 0);
    assert_eq!(a.remaining_secs(5_000), 60);
}

#[test]
fn remaining_saturates_at_zero() {
    let a = ActiveSession::fresh(1, SessionRecord::new(PhaseKind::Work, 0, 60, None));
    assert_eq!(a.remaining_secs(60_000), 0);
    assert_eq!(a.remaining_secs(600_000), 0);
    assert_eq!(a.remaining_secs(59_999), 1);
}

#[test]
fn closed_pauses_are_not_counted() {
    let mut a = ActiveSession::fresh(1, SessionRecord::new(PhaseKind::Work, 0, 60, None));
    a.closed_paused_ms = 10_000;
    assert_eq!(a.elapsed_ms(30_000), 20_000);
    assert_eq!(a.remaining_secs(30_000), 40);
}

#[test]
fn completed_session_ignores_now() {
    let mut r = SessionRecord::new(PhaseKind::Work, 0, 60, None);
    r.mark_completed(45_000);
    let a = ActiveSession::fresh(1, r);
    assert_eq!(a.elapsed_ms(1_000_000), 45_000);
    assert_eq!(a.elapsed_ms(0), 45_000);
}

#[test]
fn pause_freezes_the_clock() {
    let a = ActiveSession::fresh(1, SessionRecord::new(PhaseKind::Work, 0, 60, None));
    let p = a.pause(5, 20_000);
    assert!(p.is_paused());
    assert_eq!(p.elapsed_ms(20_000), 20_000);
    assert_eq!(p.elapsed_ms(50_000), 20_000);
    assert_eq!(p.remaining_secs(90_000), 40);
}

#[test]
fn resume_continues_where_paused() {
    let a = ActiveSession::fresh(1, SessionRecord::new(PhaseKind::Work, 0, 60, None));
    let p = a.pause(5, 20_000);
    let (b, closed) = p.resume(35_000);
    assert_eq!(closed, Some(5));
    assert_eq!(b.open_pause, None);
    assert_eq!(b.closed_paused_ms, 15_000);
    assert_eq!(b.elapsed_ms(35_000), a.elapsed_ms(20_000));
    assert_eq!(b.remaining_secs(35_000), a.remaining_secs(20_000));
    assert_eq!(b.elapsed_ms(40_000), 25_000);
}

#[test]
fn resume_with_clock_gone_back_adds_nothing() {
    let a = ActiveSession::fresh(1, SessionRecord::new(PhaseKind::Work, 0, 60, None));
    let (b, closed) = a.pause(2, 20_000).resume(10_000);
    assert_eq!(closed, Some(2));
    assert_eq!(b.closed_paused_ms, 0);
}

#[test]
fn resume_without_pause_changes_nothing() {
    let a = ActiveSession::fresh(1, SessionRecord::new(PhaseKind::Work, 0, 60, None));
    let (b, closed) = a.resume(10_000);
    assert_eq!(closed, None);
    assert_eq!(b.closed_paused_ms, 0);
    assert_eq!(b.open_pause, None);
}

#[test]
fn run_out_time_adds_duration_and_pauses() {
    let mut a = ActiveSession::fresh(1, SessionRecord::new(PhaseKind::Work, 1_000, 60, None));
    a.closed_paused_ms = 5_000;
    let t = a.run_out_time();
    assert_eq!(t, 66_000);
    assert_eq!(a.elapsed_ms(t), 60_000);
    assert_eq!(a.remaining_secs(t), 0);
}

#[test]
fn remaining_counts_down_monotonically() {
    let a = ActiveSession::fresh(1, SessionRecord::new(PhaseKind::Break, 0, 300, None));
    let mut last = a.remaining_secs(0);
    let mut t = 0;
    while t <= 400_000 {
        let r = a.remaining_secs(t);
        assert!(r <= last);
        assert!(r <= 300);
        last = r;
        t += 777;
    }
}

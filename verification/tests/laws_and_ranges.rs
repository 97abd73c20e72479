use pomodoro::queries::{completed_work_counts, counts_in_range, pauses_in_range, restore_active};
use pomodoro::session::{ActiveSession, PauseRecord, PhaseKind, SessionRecord};
use pomodoro::settings::Settings;

#[test]
fn reload_matches_live_pauses() {
    let rec = SessionRecord::new(PhaseKind::Work, 0, 1_500, None);
    let live0 = ActiveSession::fresh(3, rec);
    // Live: pause at 10s, resume at 25s; pause at 40s, resume at 41s; pause at 60s.
    let (live1, _) = live0.pause(1, 10_000).resume(25_000);
    let (live2, _) = live1.pause(2, 40_000).resume(41_000);
    let live3 = live2.pause(3, 60_000);
    // Stored: the same pauses as records.
    let mut p1 = PauseRecord::new(3, 10_000);
    p1.mark_resumed(25_000);
    let mut p2 = PauseRecord::new(3, 40_000);
    p2.mark_resumed(41_000);
    let p3 = PauseRecord::new(3, 60_000);
    let stored = vec![(1, p1), (2, p2), (3, p3)];
    assert!(pauses_in_range(&stored));
    let reloaded = restore_active(3, rec, &stored);
    assert_eq!(reloaded.closed_paused_ms, live3.closed_paused_ms);
    assert_eq!(reloaded.open_pause, live3.open_pause);
    assert_eq!(reloaded.remaining_secs(100_000), live3.remaining_secs(100_000));
}

#[test]
fn stored_completion_is_counted_once() {
    let mut v = vec![
        SessionRecord::new(PhaseKind::Work, 0, 60, None),
        SessionRecord::new(PhaseKind::Work, 100, 60, None),
    ];
    let before = completed_work_counts(&v, 50_000);
    v[1].mark_completed(60_100);
    let after = completed_work_counts(&v, 50_000);
    assert_eq!(after.0, before.0 + 1);
    assert_eq!(after.1, before.1 + 1);
    v[0].mark_completed(40_000);
    let later = completed_work_counts(&v, 50_000);
    assert_eq!(later, (2, 1));
}

#[test]
fn pause_ranges() {
    let ok = vec![(1, PauseRecord { session_id: 1, paused_at_ms: 0, resumed_at_ms: Some(5) })];
    assert!(pauses_in_range(&ok));
    let gap_too_large = vec![(1, PauseRecord { session_id: 1, paused_at_ms: i64::MIN, resumed_at_ms: Some(i64::MAX) })];
    assert!(!pauses_in_range(&gap_too_large));
    let sum_too_large = vec![
        (1, PauseRecord { session_id: 1, paused_at_ms: 0, resumed_at_ms: Some(i64::MAX) }),
        (2, PauseRecord { session_id: 1, paused_at_ms: 0, resumed_at_ms: Some(1) }),
    ];
    assert!(!pauses_in_range(&sum_too_large));
    let negative_gap = vec![(1, PauseRecord { session_id: 1, paused_at_ms: 10, resumed_at_ms: Some(0) })];
    assert!(pauses_in_range(&negative_gap));
    assert!(pauses_in_range(&Vec::new()));
}

#[test]
fn elapsed_ranges() {
    let a = ActiveSession::fresh(1, SessionRecord::new(PhaseKind::Work, i64::MIN, 60, None));
    assert!(!a.elapsed_in_range(1));
    assert!(a.elapsed_in_range(-1));
    let b = ActiveSession::fresh(1, SessionRecord::new(PhaseKind::Work, 0, 60, None));
    assert!(b.elapsed_in_range(i64::MAX));
    let mut c = b;
    c.closed_paused_ms = i64::MIN;
    assert!(!c.elapsed_in_range(1));
}

#[test]
fn resume_ranges() {
    let a = ActiveSession::fresh(1, SessionRecord::new(PhaseKind::Work, 0, 60, None));
    assert!(a.resume_in_range(i64::MAX));
    assert!(!a.pause(1, i64::MIN).resume_in_range(i64::MAX));
    let mut b = a.pause(1, 0);
    b.closed_paused_ms = i64::MAX;
    assert!(!b.resume_in_range(1));
    assert!(b.resume_in_range(0));
}

#[test]
fn run_out_ranges() {
    let a = ActiveSession::fresh(1, SessionRecord::new(PhaseKind::Work, i64::MAX - 10, 60, None));
    assert!(!a.run_out_in_range());
    let b = ActiveSession::fresh(1, SessionRecord::new(PhaseKind::Work, 0, u32::MAX, None));
    assert!(b.run_out_in_range());
    assert_eq!(b.run_out_time(), u32::MAX as i64 * 1000);
}

#[test]
fn settings_ranges() {
    let s = Settings { work_minutes: u32::MAX, break_minutes: 5, auto_start_next: false, selected_task_id: None };
    assert!(!s.fits_secs(PhaseKind::Work));
    assert!(s.fits_secs(PhaseKind::Break));
    let edge = Settings { work_minutes: u32::MAX / 60, ..s };
    assert!(edge.fits_secs(PhaseKind::Work));
    assert_eq!(edge.duration_secs(PhaseKind::Work), (u32::MAX / 60) * 60);
}

#[test]
fn closing_a_stored_pause_matches_resume() {
    let rec = SessionRecord::new(PhaseKind::Work, 0, 1_500, None);
    let mut p1 = PauseRecord::new(3, 1_000);
    p1.mark_resumed(4_000);
    let p2 = PauseRecord::new(3, 10_000);
    let before = restore_active(3, rec, &vec![(1, p1), (2, p2)]);
    let mut p2c = p2;
    p2c.mark_resumed(17_000);
    let after = restore_active(3, rec, &vec![(1, p1), (2, p2c)]);
    assert_eq!(after.closed_paused_ms, before.closed_paused_ms + 7_000);
    assert_eq!(after.open_pause, None);
    let (resumed, _) = before.resume(17_000);
    assert_eq!(resumed.closed_paused_ms, after.closed_paused_ms);
    assert_eq!(resumed.open_pause, after.open_pause);
}

#[test]
fn later_cutoff_counts_no_more() {
    let mut v = Vec::new();
    for i in 0..6i64 {
        let mut r = SessionRecord::new(PhaseKind::Work, 0, 60, None);
        r.mark_completed(i * 1_000);
        v.push(r);
    }
    let mut prev = u32::MAX;
    for cutoff in [-1i64, 0, 999, 1_000, 2_500, 5_000, 5_001] {
        let (total, since) = completed_work_counts(&v, cutoff);
        assert_eq!(total, 6);
        assert!(since <= prev && since <= total);
        prev = since;
    }
    assert!(counts_in_range(&v));
}

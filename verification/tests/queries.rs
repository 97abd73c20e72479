use pomodoro::queries::{completed_work_counts, completed_work_entries, restore_active, select_active, session_history};
use pomodoro::session::{PauseRecord, PhaseKind, SessionRecord};

fn rec(phase: PhaseKind, started: i64, completed: Option<i64>, abandoned: Option<i64>) -> SessionRecord {
    SessionRecord {
        phase,
        started_at_ms: started,
        duration_secs: 60,
        completed_at_ms: completed,
        abandoned_at_ms: abandoned,
        task_id: None,
    }
}

#[test]
fn select_active_none_when_all_ended() {
    let v = vec![
        (1, rec(PhaseKind::Work, 0, Some(60_000), None)),
        (2, rec(PhaseKind::Break, 100, None, Some(200))),
    ];
    assert_eq!(select_active(&v), None);
    assert_eq!(select_active(&Vec::new()), None);
}

#[test]
fn select_active_keeps_latest() {
    let v = vec![
        (1, rec(PhaseKind::Work, 500, None, None)),
        (2, rec(PhaseKind::Work, 900, Some(1_000), None)),
        (3, rec(PhaseKind::Break, 700, None, None)),
        (4, rec(PhaseKind::Work, 100, None, None)),
    ];
    let (id, r) = select_active(&v).unwrap();
    assert_eq!(id, 3);
    assert_eq!(r.started_at_ms, 700);
}

#[test]
fn select_active_first_of_equal_starts() {
    let v = vec![
        (1, rec(PhaseKind::Work, 700, None, None)),
        (2, rec(PhaseKind::Break, 700, None, None)),
    ];
    assert_eq!(select_active(&v).unwrap().0, 1);
}

#[test]
fn restore_sums_closed_pauses_and_finds_open_one() {
    let s = rec(PhaseKind::Work, 0, None, None);
    let pauses = vec![
        (10, PauseRecord { session_id: 7, paused_at_ms: 1_000, resumed_at_ms: Some(3_000) }),
        (11, PauseRecord { session_id: 7, paused_at_ms: 5_000, resumed_at_ms: Some(4_000) }),
        (12, PauseRecord { session_id: 7, paused_at_ms: 6_000, resumed_at_ms: Some(6_500) }),
        (13, PauseRecord { session_id: 7, paused_at_ms: 8_000, resumed_at_ms: None }),
    ];
    let a = restore_active(7, s, &pauses);
    assert_eq!(a.session_id, 7);
    assert_eq!(a.closed_paused_ms, 2_500);
    assert_eq!(a.open_pause, Some((13, 8_000)));
    assert!(a.is_paused());
}

#[test]
fn restore_takes_last_open_pause() {
    let s = rec(PhaseKind::Work, 0, None, None);
    let pauses = vec![
        (1, PauseRecord { session_id: 7, paused_at_ms: 1_000, resumed_at_ms: None }),
        (2, PauseRecord { session_id: 7, paused_at_ms: 2_000, resumed_at_ms: None }),
    ];
    let a = restore_active(7, s, &pauses);
    assert_eq!(a.open_pause, Some((2, 2_000)));
    assert_eq!(a.closed_paused_ms, 0);
}

#[test]
fn restore_without_pauses_is_fresh() {
    let s = rec(PhaseKind::Break, 42, None, None);
    let a = restore_active(3, s, &Vec::new());
    assert_eq!(a.closed_paused_ms, 0);
    assert_eq!(a.open_pause, None);
    assert_eq!(a.session, s);
}

#[test]
fn history_excludes_active_and_sorts_newest_first() {
    let v = vec![
        (1, rec(PhaseKind::Work, 100, Some(200), None)),
        (2, rec(PhaseKind::Work, 300, None, None)),
        (3, rec(PhaseKind::Break, 500, None, Some(550))),
        (4, rec(PhaseKind::Work, 200, Some(260), None)),
    ];
    let h = session_history(&v, 100);
    let ids: Vec<u64> = h.iter().map(|e| e.0).collect();
    assert_eq!(ids, vec![3, 4, 1]);
}

#[test]
fn history_is_stable_for_equal_starts() {
    let v = vec![
        (5, rec(PhaseKind::Work, 100, Some(200), None)),
        (6, rec(PhaseKind::Work, 100, Some(201), None)),
        (7, rec(PhaseKind::Work, 100, Some(202), None)),
        (8, rec(PhaseKind::Work, 150, Some(250), None)),
    ];
    let ids: Vec<u64> = session_history(&v, 10).iter().map(|e| e.0).collect();
    assert_eq!(ids, vec![8, 5, 6, 7]);
}

#[test]
fn history_is_capped_at_limit() {
    let mut v = Vec::new();
    for i in 0..10u64 {
        v.push((i, rec(PhaseKind::Work, i as i64 * 10, Some(i as i64 * 10 + 5), None)));
    }
    let ids: Vec<u64> = session_history(&v, 3).iter().map(|e| e.0).collect();
    assert_eq!(ids, vec![9, 8, 7]);
    assert!(session_history(&v, 0).is_empty());
}

#[test]
fn completed_counts_only_work() {
    let v = vec![
        rec(PhaseKind::Work, 0, Some(1_000), None),
        rec(PhaseKind::Break, 0, Some(2_000), None),
        rec(PhaseKind::Work, 0, None, Some(3_000)),
        rec(PhaseKind::Work, 0, Some(5_000), None),
        rec(PhaseKind::Work, 0, None, None),
    ];
    assert_eq!(completed_work_counts(&v, 0), (2, 2));
    assert_eq!(completed_work_counts(&v, 5_000), (2, 1));
    assert_eq!(completed_work_counts(&v, 5_001), (2, 0));
    assert_eq!(completed_work_counts(&Vec::new(), 0), (0, 0));
}

#[test]
fn visible_history_is_completed_work() {
    let v = vec![
        (1, rec(PhaseKind::Work, 0, Some(1_000), None)),
        (2, rec(PhaseKind::Break, 0, Some(2_000), None)),
        (3, rec(PhaseKind::Work, 0, None, Some(3_000))),
        (4, rec(PhaseKind::Work, 0, Some(4_000), None)),
    ];
    let ids: Vec<u64> = completed_work_entries(&v).iter().map(|e| e.0).collect();
    assert_eq!(ids, vec![1, 4]);
}

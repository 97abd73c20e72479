use pomodoro::schema::{missing_stores, Store};

#[test]
fn fresh_database_gets_every_store() {
    assert_eq!(missing_stores(&Vec::new()), vec![Store::Sessions, Store::Pauses, Store::Settings, Store::Tasks]);
}

#[test]
fn upgrade_creates_only_missing_stores() {
    let existing = vec!["sessions".to_string(), "pauses".to_string(), "other".to_string()];
    assert_eq!(missing_stores(&existing), vec![Store::Settings, Store::Tasks]);
    let all = vec!["tasks".to_string(), "settings".to_string(), "pauses".to_string(), "sessions".to_string()];
    assert!(missing_stores(&all).is_empty());
}

#[test]
fn store_parameters() {
    assert_eq!(Store::Sessions.name(), "sessions");
    assert_eq!(Store::Pauses.name(), "pauses");
    assert_eq!(Store::Settings.name(), "settings");
    assert_eq!(Store::Tasks.name(), "tasks");
    assert!(Store::Sessions.auto_increment());
    assert!(!Store::Settings.auto_increment());
    assert!(Store::Pauses.indexed_by_session());
    assert!(!Store::Tasks.indexed_by_session());
}

//! Admin server state.
use evento::admin::{completion_due, run_finished, simulator_port, task_counts, MetricsHistory, PostgresHealth, SystemStatus, HISTORY_CAPACITY};

#[test]
fn status_starts_loading_and_records_checks() {
    let mut s = SystemStatus::initial();
    assert_eq!(s.evento_core, "Active");
    assert_eq!(s.sled_store, "Loading");
    assert_eq!(s.postgres_store, "Loading");
    assert_eq!(s.mcp_server, "Green");
    assert_eq!(s.uptime_seconds, 0);
    s.record_check(42, true, PostgresHealth::QueryFailed);
    assert_eq!(s.uptime_seconds, 42);
    assert_eq!(s.sled_store, "Green");
    assert_eq!(s.postgres_store, "Error");
    s.record_check(43, false, PostgresHealth::Unreachable);
    assert_eq!(s.sled_store, "Offline");
    assert_eq!(s.postgres_store, "Offline");
    s.record_check(44, true, PostgresHealth::Healthy);
    assert_eq!(s.postgres_store, "Green");
    assert_eq!(s.evento_core, "Active");
}

#[test]
fn history_keeps_the_last_snapshots() {
    let mut h: MetricsHistory<u32> = MetricsHistory::new();
    assert_eq!(h.len(), 0);
    for i in 0..(HISTORY_CAPACITY as u32 + 5) {
        h.record(i);
    }
    assert_eq!(h.len(), 720);
    assert_eq!(h.snapshots()[0], 5);
    assert_eq!(*h.snapshots().last().unwrap(), 724);
}

#[test]
fn run_bookkeeping() {
    assert!(run_finished("\"Completed\""));
    assert!(run_finished("{\"Failed\":\"x\"}"));
    assert!(!run_finished("\"Running\""));
    assert!(completion_due(None));
    assert!(completion_due(Some("\"Running\"")));
    assert!(!completion_due(Some("\"Cancelled\"")));
    assert!(!completion_due(Some("{\"Failed\":\"boom\"}")));
    assert_eq!(simulator_port(8080), 8081);
}

#[test]
fn task_counts_of_stored_runs() {
    let states = vec![
        Some("\"Completed\"".to_string()),
        None,
        Some("\"Running\"".to_string()),
        Some("{\"Failed\":\"x\"}".to_string()),
    ];
    assert_eq!(task_counts(&states), (4, 2));
    assert_eq!(task_counts(&vec![]), (0, 0));
}

use hailux_tui::session_picker::SessionSummary;
use hailux_tui::task_log::{build_task_entries, TaskLog, TaskRunStatus, MAX_TASK_RECORDS};

#[test]
fn tasks_are_numbered_and_finished_with_their_session() {
    let mut log = TaskLog::new();
    let a = log.start("explorer", "find uses", 10);
    assert_eq!(a, 1);
    assert_eq!(log.active_call_id, Some(1));
    log.finish("<task subagent=\"explorer\" task_id=\"sub-42\" state=\"done\">\nok");
    assert_eq!(log.active_call_id, None);
    assert_eq!(log.records[0].session_id, "sub-42");
    assert_eq!(log.records[0].status, TaskRunStatus::Completed);
    let b = log.start("coder", "write it", 20);
    assert_eq!(b, 2);
    log.finish("failed without an id");
    assert_eq!(log.records[1].status, TaskRunStatus::Error);
    assert_eq!(log.records[1].session_id, "");
    assert_eq!(log.records[0].status, TaskRunStatus::Completed);
}

#[test]
fn start_from_arguments_needs_a_subagent() {
    let mut log = TaskLog::new();
    assert_eq!(log.start_from_arguments(r#"{"description":"x"}"#, 5), None);
    assert_eq!(log.call_counter, 0);
    assert_eq!(log.start_from_arguments("not json", 5), None);
    let id = log.start_from_arguments(r#"{"subagent":"explorer","description":"look"}"#, 7);
    assert_eq!(id, Some(1));
    assert_eq!(log.records[0].subagent_name, "explorer");
    assert_eq!(log.records[0].description, "look");
    assert_eq!(log.records[0].started_at, 7);
    assert_eq!(log.records[0].status, TaskRunStatus::Running);
}

#[test]
fn log_keeps_the_latest_records() {
    let mut log = TaskLog::new();
    for k in 0..(MAX_TASK_RECORDS as u64 + 3) {
        log.start("s", "d", k);
    }
    assert_eq!(log.records.len(), MAX_TASK_RECORDS);
    assert_eq!(log.records[0].call_id, 4);
    assert_eq!(log.records.last().unwrap().call_id, MAX_TASK_RECORDS as u64 + 3);
    let mut finished = TaskLog::new();
    finished.finish("task_id=\"x\"");
    assert!(finished.records.is_empty());
}

fn sub(id: &str, title: &str) -> SessionSummary {
    SessionSummary {
        id: id.to_string(),
        title: title.to_string(),
        model: "m".to_string(),
        updated_at: "2024-01-01T00:00:00".to_string(),
    }
}

#[test]
fn panel_lists_log_then_unknown_subsessions() {
    let mut log = TaskLog::new();
    log.start("explorer", "look", 1);
    log.finish("task_id=\"s1\"");
    log.start("coder", "write", 2);
    let subs = vec![
        sub("s2", "tester|run the suite"),
        sub("s1", "explorer|look"),
        sub("s3", "planner"),
        sub("s4", ""),
    ];
    let entries = build_task_entries(&log.records, &subs);
    assert_eq!(entries.len(), 5);
    assert_eq!(entries[0].subagent_name, "explorer");
    assert_eq!(entries[0].subsession.as_ref().unwrap().id, "s1");
    assert_eq!(entries[0].status, TaskRunStatus::Completed);
    assert!(entries[1].subsession.is_none());
    assert_eq!(entries[1].status, TaskRunStatus::Running);
    assert!(entries[2].record.is_none());
    assert_eq!(entries[2].subagent_name, "tester");
    assert_eq!(entries[2].description, "run the suite");
    assert_eq!(entries[3].subagent_name, "planner");
    assert_eq!(entries[3].description, "");
    assert_eq!(entries[4].subagent_name, "subagent");
    assert_eq!(entries[4].status, TaskRunStatus::Completed);
}

#[test]
fn detail_shows_stored_subsession_first() {
    let mut log = TaskLog::new();
    log.start("explorer", "look", 1);
    log.finish("task_id=\"s1\"");
    log.start("coder", "write", 2);
    let entries = build_task_entries(&log.records, &[sub("s1", "explorer|look"), sub("s9", "x")]);
    assert_eq!(entries[0].session_id().as_deref(), Some("s1"));
    assert_eq!(entries[1].session_id().as_deref(), Some(""));
    assert_eq!(entries[2].session_id().as_deref(), Some("s9"));
}

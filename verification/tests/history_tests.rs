use hailux_tui::history::{plan_cells, CellPlan, ExploreEntry};
use hailux_tui::transcript::{Message, TaskStatus};

fn call(name: &str) -> Message {
    Message::ToolCall { name: name.to_string(), arguments: "{}".to_string() }
}

fn result(name: &str) -> Message {
    Message::ToolResult { name: name.to_string(), result: "ok".to_string(), display: None }
}

fn step() -> Message {
    Message::SubagentStep {
        name: "explore".to_string(),
        summary: "s".to_string(),
        is_done: true,
        task_call_id: None,
    }
}

#[test]
fn plain_messages_get_their_own_cells() {
    let ms = vec![
        Message::User { text: "hi".to_string(), plan_mode: true },
        Message::AgentThinking { text: "  ".to_string(), think_ms: None, thinking_started_at: None },
        Message::AgentThinking { text: "hmm".to_string(), think_ms: Some(5), thinking_started_at: None },
        Message::Agent(" \n".to_string()),
        Message::AgentStreaming("answer".to_string()),
        Message::AgentDone { total_ms: 10, model: "m".to_string(), status: TaskStatus::Completed },
        Message::CompactMarker { summary: "s".to_string(), compacted_count: 3 },
        Message::CompactStreaming(String::new()),
    ];
    assert_eq!(
        plan_cells(&ms),
        vec![
            CellPlan::User { index: 0, plan_mode: true },
            CellPlan::Reasoning { index: 2 },
            CellPlan::Markdown { index: 4 },
            CellPlan::Done { index: 5, plan_mode: true },
            CellPlan::Divider { index: 6 },
            CellPlan::Divider { index: 7 },
        ]
    );
}

#[test]
fn read_only_calls_fold_into_exploring() {
    let ms = vec![call("read"), result("read"), call("grep"), result("grep"), call("glob"), call("bash")];
    assert_eq!(
        plan_cells(&ms),
        vec![
            CellPlan::Exploring {
                items: vec![
                    ExploreEntry { call: 0, result: Some(1) },
                    ExploreEntry { call: 2, result: Some(3) },
                    ExploreEntry { call: 4, result: None },
                ],
                all_done: false,
            },
            CellPlan::Tool { call: 5, result: None },
        ]
    );
}

#[test]
fn lone_read_only_call_is_a_tool_cell() {
    let ms = vec![call("read"), result("read"), Message::Agent("done".to_string())];
    assert_eq!(
        plan_cells(&ms),
        vec![CellPlan::Tool { call: 0, result: Some(1) }, CellPlan::Markdown { index: 2 }]
    );
    let ms = vec![call("read")];
    assert_eq!(plan_cells(&ms), vec![CellPlan::Tool { call: 0, result: None }]);
}

#[test]
fn exploring_run_with_missing_result_is_not_done() {
    let ms = vec![call("read"), call("grep"), result("grep")];
    assert_eq!(
        plan_cells(&ms),
        vec![CellPlan::Exploring {
            items: vec![
                ExploreEntry { call: 0, result: None },
                ExploreEntry { call: 1, result: Some(2) },
            ],
            all_done: false,
        }]
    );
}

#[test]
fn task_call_skips_its_steps() {
    let ms = vec![call("task"), step(), step(), result("task"), call("write"), result("write")];
    assert_eq!(
        plan_cells(&ms),
        vec![
            CellPlan::TaskTool { call: 0, result: Some(3) },
            CellPlan::Tool { call: 4, result: Some(5) },
        ]
    );
    let ms = vec![call("task"), step()];
    assert_eq!(plan_cells(&ms), vec![CellPlan::TaskTool { call: 0, result: None }]);
}

#[test]
fn todo_and_mismatched_results() {
    let ms = vec![call("todo_write"), result("todo_write"), call("edit"), result("write"), step()];
    assert_eq!(
        plan_cells(&ms),
        vec![
            CellPlan::Todo { call: 0, result: Some(1) },
            CellPlan::Tool { call: 2, result: None },
            CellPlan::LoneResult { index: 3 },
            CellPlan::Step { index: 4 },
        ]
    );
}

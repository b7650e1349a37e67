use hailux_tui::transcript::{Message, TaskStatus, Transcript};

fn texts(t: &Transcript) -> Vec<String> {
    t.messages()
        .iter()
        .map(|m| match m {
            Message::User { text, .. } => format!("user:{}", text),
            Message::Agent(s) => format!("agent:{}", s),
            Message::AgentStreaming(s) => format!("streaming:{}", s),
            Message::AgentThinking { text, think_ms, .. } => format!("thinking:{}:{:?}", text, think_ms),
            Message::AgentDone { total_ms, model, .. } => format!("done:{}:{}", total_ms, model),
            Message::ToolCall { name, .. } => format!("call:{}", name),
            Message::ToolResult { name, .. } => format!("result:{}", name),
            Message::SubagentStep { summary, is_done, .. } => format!("step:{}:{}", summary, is_done),
            Message::CompactMarker { compacted_count, .. } => format!("marker:{}", compacted_count),
            Message::CompactStreaming(s) => format!("compacting:{}", s),
        })
        .collect()
}

#[test]
fn chunks_concatenate_into_one_answer() {
    let mut t = Transcript::new();
    t.push(Message::User { text: "hi".to_string(), plan_mode: false });
    t.push_agent_chunk("Hel", 10);
    t.push_agent_chunk("lo", 20);
    assert_eq!(texts(&t), vec!["user:hi", "streaming:Hello"]);
    t.complete(Some(1234), "deepseek/chat", TaskStatus::Completed, 30);
    assert_eq!(texts(&t), vec!["user:hi", "agent:Hello", "done:1234:deepseek/chat"]);
}

#[test]
fn reasoning_is_timed_until_the_answer_starts() {
    let mut t = Transcript::new();
    t.push_reasoning_chunk("let me ", 1_000);
    t.push_reasoning_chunk("think", 1_200);
    assert_eq!(texts(&t), vec!["thinking:let me think:None"]);
    t.push_agent_chunk("Answer", 1_750);
    assert_eq!(texts(&t), vec!["thinking:let me think:Some(750)", "streaming:Answer"]);
    assert_eq!(t.think_ms_since_boundary(), 750);
}

#[test]
fn finished_reasoning_is_not_extended() {
    let mut t = Transcript::new();
    t.push_reasoning_chunk("a", 0);
    t.finalize_thinking(5);
    t.push_reasoning_chunk("b", 9);
    assert_eq!(texts(&t), vec!["thinking:a:Some(5)", "thinking:b:None"]);
}

#[test]
fn think_time_counts_only_since_last_boundary() {
    let mut t = Transcript::new();
    t.push_reasoning_chunk("old", 0);
    t.finalize_thinking(100);
    t.push(Message::ToolCall { name: "read".to_string(), arguments: "{}".to_string() });
    t.push_reasoning_chunk("x", 200);
    t.finalize_thinking(230);
    t.push_reasoning_chunk("y", 300);
    t.finalize_thinking(310);
    assert_eq!(t.think_ms_since_boundary(), 40);
}

#[test]
fn completion_without_timing_adds_no_done_entry() {
    let mut t = Transcript::new();
    t.push_agent_chunk("partial", 0);
    t.complete(None, "m", TaskStatus::Interrupted, 1);
    assert_eq!(texts(&t), vec!["agent:partial"]);
}

#[test]
fn subagent_steps_are_marked_done_with_summary() {
    let mut t = Transcript::new();
    t.push(Message::SubagentStep {
        name: "explore".to_string(),
        summary: "Read main.rs".to_string(),
        is_done: false,
        task_call_id: Some(1),
    });
    t.finish_subagent_step("42 lines");
    assert_eq!(texts(&t), vec!["step:Read main.rs — 42 lines:true"]);
    t.push(Message::SubagentStep {
        name: "explore".to_string(),
        summary: "Grep".to_string(),
        is_done: false,
        task_call_id: None,
    });
    t.finish_subagent_step("");
    assert_eq!(texts(&t)[1], "step:Grep:true");
}

#[test]
fn compaction_streams_then_becomes_marker_or_note() {
    let mut t = Transcript::new();
    t.push_compact_chunk("ignored");
    assert!(texts(&t).is_empty());
    t.push(Message::CompactStreaming(String::new()));
    t.push_compact_chunk("sum");
    t.push_compact_chunk("mary");
    assert_eq!(texts(&t), vec!["compacting:summary"]);
    t.finish_compaction("summary", 12);
    assert_eq!(texts(&t), vec!["marker:12"]);
    t.push(Message::CompactStreaming("x".to_string()));
    t.fail_compaction("timeout");
    assert_eq!(texts(&t)[1], "agent:[压缩失败: timeout]");
}

#[test]
fn subagent_tool_calls_become_steps() {
    let mut t = Transcript::new();
    t.push_reasoning_chunk("hmm", 100);
    t.tool_call_started("read", r#"{"file_path":"a.rs"}"#, Some("explorer"), Some(3), 250);
    match &t.messages()[0] {
        Message::AgentThinking { think_ms, .. } => assert_eq!(*think_ms, Some(150)),
        other => panic!("unexpected {:?}", other),
    }
    match &t.messages()[1] {
        Message::SubagentStep { name, summary, is_done, task_call_id } => {
            assert_eq!(name, "explorer");
            assert_eq!(summary, "a.rs");
            assert!(!*is_done);
            assert_eq!(*task_call_id, Some(3));
        }
        other => panic!("unexpected {:?}", other),
    }
    t.tool_result_arrived("read", "<type>file</type><content>1\n2</content>", None, true);
    match &t.messages()[1] {
        Message::SubagentStep { summary, is_done, .. } => {
            assert_eq!(summary, "a.rs — 2 lines");
            assert!(*is_done);
        }
        other => panic!("unexpected {:?}", other),
    }
    t.tool_call_started("bash", r#"{"command_string":"ls"}"#, None, None, 300);
    t.tool_result_arrived("bash", "ok", Some("meta".to_string()), false);
    assert_eq!(t.len(), 4);
    match &t.messages()[3] {
        Message::ToolResult { name, result, display } => {
            assert_eq!(name, "bash");
            assert_eq!(result, "ok");
            assert_eq!(display.as_deref(), Some("meta"));
        }
        other => panic!("unexpected {:?}", other),
    }
}

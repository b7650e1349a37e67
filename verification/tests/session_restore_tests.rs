use hailux_tui::session_restore::{restore_messages, MessageRole, StoredMessage};
use hailux_tui::transcript::{Message, TaskStatus};

fn stored(role: MessageRole, content: &str) -> StoredMessage {
    StoredMessage {
        role,
        content: content.to_string(),
        reasoning_content: None,
        think_ms: None,
        tool_calls: None,
        tool_call_id: None,
        runtime_meta: None,
        compacted: false,
    }
}

fn tool_result(id: &str, content: &str, meta: Option<&str>) -> StoredMessage {
    let mut m = stored(MessageRole::Tool, content);
    m.tool_call_id = Some(id.to_string());
    m.runtime_meta = meta.map(|s| s.to_string());
    m
}

fn describe(m: &Message) -> String {
    match m {
        Message::User { text, plan_mode } => format!("user:{}:{}", text, plan_mode),
        Message::Agent(t) => format!("agent:{}", t),
        Message::AgentThinking { text, think_ms, .. } => format!("think:{}:{:?}", text, think_ms),
        Message::AgentDone { total_ms, model, status } => {
            format!("done:{}:{}:{:?}", total_ms, model, status)
        }
        Message::ToolCall { name, arguments } => format!("call:{}:{}", name, arguments),
        Message::ToolResult { name, result, display } => {
            format!("result:{}:{}:{:?}", name, result, display)
        }
        Message::CompactMarker { summary, compacted_count } => {
            format!("marker:{}:{}", summary, compacted_count)
        }
        other => format!("{:?}", other),
    }
}

fn describe_all(ms: &[Message]) -> Vec<String> {
    ms.iter().map(describe).collect()
}

#[test]
fn user_and_answer_turns_are_rebuilt() {
    let mut user = stored(MessageRole::User, "hello");
    user.runtime_meta = Some(r#"{"plan_mode":true}"#.to_string());
    let mut answer = stored(MessageRole::Assistant, "hi there");
    answer.reasoning_content = Some("thinking...".to_string());
    answer.think_ms = Some(1200);
    answer.runtime_meta =
        Some(r#"{"total_ms":3400,"model":"gpt","status":"interrupted"}"#.to_string());
    let blank = {
        let mut m = stored(MessageRole::Assistant, "");
        m.reasoning_content = Some("   ".to_string());
        m
    };
    let msgs = restore_messages(
        &[user, answer, blank, stored(MessageRole::System, "sys")],
        None,
    );
    assert_eq!(
        describe_all(&msgs),
        vec![
            "user:hello:true",
            "think:thinking...:Some(1200)",
            "agent:hi there",
            "done:3400:gpt:Interrupted",
        ]
    );
}

#[test]
fn tool_calls_pair_with_results_by_id() {
    let mut answer = stored(MessageRole::Assistant, "");
    answer.tool_calls = Some(
        r#"[{"id":"c1","function":{"name":"read","arguments":"{\"file_path\":\"a\"}"}},
            {"id":"c2","custom_tool":{"name":"patch","input":{"x":1}}},
            {"id":"c3","function":{"arguments":"{}"}}]"#
            .to_string(),
    );
    let msgs = restore_messages(
        &[
            answer,
            tool_result("c1", "file body", None),
            tool_result("c1", "second answer", None),
            tool_result("c2", "patched", Some("{\"new\":\"n\"}")),
            tool_result("zz", "orphan", None),
        ],
        None,
    );
    assert_eq!(
        describe_all(&msgs),
        vec![
            "call:read:{\"file_path\":\"a\"}",
            "result:read:file body:None",
            "call:patch:{\"x\":1}",
            "result:patch:patched:Some(\"{\\\"new\\\":\\\"n\\\"}\")",
            "result::orphan:None",
        ]
    );
}

#[test]
fn compaction_marker_goes_before_first_kept_message() {
    let mut a = stored(MessageRole::User, "old");
    a.compacted = true;
    let mut b = stored(MessageRole::Assistant, "old answer");
    b.compacted = true;
    let c = stored(MessageRole::User, "new");
    let msgs = restore_messages(&[a, b, c], Some("summary".to_string()));
    assert_eq!(
        describe_all(&msgs),
        vec!["user:old:false", "agent:old answer", "marker:summary:2", "user:new:false"]
    );
}

#[test]
fn compaction_marker_at_end_when_all_compacted() {
    let mut a = stored(MessageRole::User, "old");
    a.compacted = true;
    let msgs = restore_messages(&[a.clone()], Some("s".to_string()));
    assert_eq!(describe_all(&msgs), vec!["user:old:false", "marker:s:1"]);
    let msgs = restore_messages(&[a], None);
    assert_eq!(describe_all(&msgs), vec!["user:old:false"]);
    assert!(restore_messages(&[], Some("s".to_string())).is_empty());
}

#[test]
fn done_needs_total_ms() {
    let mut answer = stored(MessageRole::Assistant, "x");
    answer.runtime_meta = Some(r#"{"model":"m"}"#.to_string());
    assert_eq!(describe_all(&restore_messages(&[answer.clone()], None)), vec!["agent:x"]);
    answer.runtime_meta = Some(r#"{"total_ms":5}"#.to_string());
    assert_eq!(
        describe_all(&restore_messages(&[answer], None)),
        vec!["agent:x", "done:5::Completed"]
    );
    let _ = TaskStatus::Completed;
}

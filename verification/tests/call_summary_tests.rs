use hailux_tui::call_summary::{
    ask_user_call_summary, explore_item_from, grep_call_summary, last_line_of, mcp_call_summary,
    parse_diff_data, read_call_summary, skill_call_summary, task_call_summary, tool_call_summary,
};

#[test]
fn read_with_offset_and_limit_shows_line_range() {
    let args = r#"{"file_path":"src/main.rs","offset":10,"limit":5}"#;
    assert_eq!(tool_call_summary("read", args), "src/main.rs (L10-L14)");
}

#[test]
fn read_with_offset_only_shows_start() {
    let args = r#"{"file_path":"a.txt","offset":3}"#;
    assert_eq!(tool_call_summary("read", args), "a.txt (from L3)");
}

#[test]
fn read_without_offset_shows_path() {
    assert_eq!(tool_call_summary("read", r#"{"file_path":"a.txt","limit":7}"#), "a.txt");
}

#[test]
fn read_with_unparsable_arguments_is_empty() {
    assert_eq!(tool_call_summary("read", "not json"), "");
}

#[test]
fn read_range_wraps_like_release_build() {
    assert_eq!(last_line_of(0, 0), u64::MAX);
    assert_eq!(last_line_of(u64::MAX, 2), 0);
    assert_eq!(last_line_of(u64::MAX, 1), u64::MAX);
    assert_eq!(last_line_of(5, 1), 5);
    assert_eq!(read_call_summary("f", Some(1), Some(1)), "f (L1-L1)");
}

#[test]
fn edit_marks_replace_all() {
    assert_eq!(
        tool_call_summary("edit", r#"{"file_path":"x.rs","replace_all":true}"#),
        "x.rs (replace all)"
    );
    assert_eq!(tool_call_summary("edit", r#"{"file_path":"x.rs","replace_all":false}"#), "x.rs");
    assert_eq!(tool_call_summary("edit", r#"{"file_path":"x.rs"}"#), "x.rs");
}

#[test]
fn write_shows_path() {
    assert_eq!(tool_call_summary("write", r#"{"file_path":"out.md","content":"hi"}"#), "out.md");
}

#[test]
fn bash_command_is_cut_to_sixty() {
    let long = "echo ".to_string() + &"x".repeat(100);
    let args = format!(r#"{{"command_string":"{}"}}"#, long);
    let expected = format!("{}...", &long[..57]);
    assert_eq!(tool_call_summary("bash", &args), expected);
    assert_eq!(tool_call_summary("bash", r#"{"command_string":"ls -la"}"#), "ls -la");
}

#[test]
fn web_fetch_shows_non_markdown_format() {
    assert_eq!(tool_call_summary("web_fetch", r#"{"url":"https://a.b"}"#), "https://a.b");
    assert_eq!(
        tool_call_summary("web_fetch", r#"{"url":"https://a.b","format":"text"}"#),
        "https://a.b [text]"
    );
}

#[test]
fn grep_quotes_pattern_and_shows_filter() {
    assert_eq!(
        tool_call_summary("grep", r#"{"pattern":"fn main","path":"src","include":"*.rs"}"#),
        "\"fn main\" in src (*.rs)"
    );
    assert_eq!(tool_call_summary("grep", r#"{"pattern":"todo"}"#), "\"todo\" in .");
    assert_eq!(grep_call_summary("a", Some("*.md"), "docs"), "\"a\" in docs (*.md)");
}

#[test]
fn glob_shows_pattern_and_path() {
    assert_eq!(tool_call_summary("glob", r#"{"pattern":"**/*.rs"}"#), "**/*.rs in .");
    assert_eq!(tool_call_summary("glob", r#"{"pattern":"*.md","path":"docs"}"#), "*.md in docs");
}

#[test]
fn todo_write_counts_items() {
    let args = r#"{"todos":[{"content":"a"},{"content":"b"},{"content":"c"}]}"#;
    assert_eq!(tool_call_summary("todo_write", args), "3 items");
    assert_eq!(tool_call_summary("todo_write", "{}"), "0 items");
}

#[test]
fn ask_user_counts_questions() {
    assert_eq!(tool_call_summary("ask_user", r#"{"questions":[{"question":"q"}]}"#), "1 question");
    assert_eq!(tool_call_summary("ask_user", r#"{"questions":[{},{}]}"#), "2 questions");
    assert_eq!(tool_call_summary("ask_user", r#"{"questions":[]}"#), "");
    assert_eq!(ask_user_call_summary(0), "");
}

#[test]
fn skill_and_task_summaries() {
    assert_eq!(tool_call_summary("skill", r#"{"name":"pdf"}"#), "pdf");
    assert_eq!(
        tool_call_summary("task", r#"{"subagent":"explorer","description":"find uses"}"#),
        "[explorer] find uses"
    );
    assert_eq!(tool_call_summary("task", r#"{"subagent":"explorer"}"#), "explorer");
    assert_eq!(task_call_summary("a", ""), "a");
}

#[test]
fn mcp_call_shows_server_and_first_argument() {
    assert_eq!(
        tool_call_summary("mcp_github", r#"{"repo":"octo/hello","issue":7}"#),
        "github 7"
    );
    assert_eq!(tool_call_summary("mcp_github", r#"{"repo":"octo/hello"}"#), "github \"octo/hello\"");
    assert_eq!(tool_call_summary("mcp_github", "{}"), "github");
    assert_eq!(mcp_call_summary("mcp_fs", None), "fs");
    assert_eq!(
        mcp_call_summary("mcp_fs", Some(("path".to_string(), "\"/tmp\"".to_string()))),
        "fs \"/tmp\""
    );
}

#[test]
fn skill_call_quotes_prompt() {
    assert_eq!(skill_call_summary("skill_pdf", "merge files"), "pdf \"merge files\"");
    assert_eq!(skill_call_summary("other", ""), "other");
}

#[test]
fn unknown_tool_shows_raw_arguments_cut() {
    let args = format!(r#"{{"data":"{}"}}"#, "y".repeat(80));
    let expected = format!("{}...", &args[..57]);
    assert_eq!(tool_call_summary("custom", &args), expected);
}

#[test]
fn explore_item_joins_call_and_result() {
    let item = explore_item_from(
        "read",
        r#"{"file_path":"a.rs"}"#,
        Some("<type>file</type><content>1\n2\n3</content>"),
    );
    assert_eq!(item.label, "Read");
    assert_eq!(item.detail, "a.rs — 3 lines");
    let item = explore_item_from("glob", r#"{"pattern":"*.rs"}"#, None);
    assert_eq!(item.label, "Listed");
    assert_eq!(item.detail, "*.rs in .");
    let item = explore_item_from("read", r#"{"file_path":"a.rs"}"#, Some(""));
    assert_eq!(item.detail, "a.rs");
}

#[test]
fn diff_data_needs_new_and_path() {
    let d = parse_diff_data(r#"{"old":"a\nb","new":"a\nc","path":"x.rs"}"#).unwrap();
    assert_eq!(d.old.as_deref(), Some("a\nb"));
    assert_eq!(d.new, "a\nc");
    assert_eq!(d.path, "x.rs");
    let d = parse_diff_data(r#"{"new":"n","path":"p"}"#).unwrap();
    assert!(d.old.is_none());
    assert!(parse_diff_data(r#"{"old":"o","path":"p"}"#).is_none());
    assert!(parse_diff_data(r#"{"new":"n"}"#).is_none());
    assert!(parse_diff_data("garbage").is_none());
}

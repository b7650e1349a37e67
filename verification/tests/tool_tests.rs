use hailux_tui::tool::{
    extract_xml_tag, is_readonly_tool, parse_task_id_from_result, truncate_str, ToolCategory,
};

#[test]
fn categories_by_name() {
    assert_eq!(ToolCategory::from_name("read"), ToolCategory::FileRead);
    assert_eq!(ToolCategory::from_name("grep"), ToolCategory::Search);
    assert_eq!(ToolCategory::from_name("todo_write"), ToolCategory::Todo);
    assert_eq!(ToolCategory::from_name("mcp_github_search"), ToolCategory::Mcp);
    assert_eq!(ToolCategory::from_name("mcp"), ToolCategory::Other);
    assert_eq!(ToolCategory::from_name("unknown"), ToolCategory::Other);
}

#[test]
fn verbs_for_running_and_done() {
    assert_eq!(ToolCategory::FileEdit.verb_active(), "Editing");
    assert_eq!(ToolCategory::FileEdit.verb_done(), "Edited");
    assert_eq!(ToolCategory::Task.verb_active(), "Delegating");
    assert_eq!(ToolCategory::Other.verb_done(), "Ran");
}

#[test]
fn readonly_tools() {
    assert!(is_readonly_tool("read"));
    assert!(is_readonly_tool("glob"));
    assert!(is_readonly_tool("web_fetch"));
    assert!(!is_readonly_tool("bash"));
    assert!(!is_readonly_tool("write"));
}

#[test]
fn truncation_counts_characters() {
    assert_eq!(truncate_str("short", 10), "short");
    assert_eq!(truncate_str("abcdefghij", 10), "abcdefghij");
    assert_eq!(truncate_str("abcdefghijk", 10), "abcdefg...");
    assert_eq!(truncate_str("你好世界你好", 5), "你好...");
    assert_eq!(truncate_str("abcdef", 2), "...");
}

#[test]
fn xml_tag_between_first_open_and_close() {
    assert_eq!(
        extract_xml_tag("x<summary>done it</summary>y", "summary"),
        Some("done it".to_string())
    );
    assert_eq!(extract_xml_tag("<a></a>", "a"), Some(String::new()));
    assert_eq!(extract_xml_tag("<a>open only", "a"), None);
    assert_eq!(extract_xml_tag("no tags", "a"), None);
}

#[test]
fn task_id_read_from_result_header() {
    let r = "<task subagent=\"explore\" description=\"look\" task_id=\"abc-123\" state=\"done\">\nbody";
    assert_eq!(parse_task_id_from_result(r), Some("abc-123".to_string()));
    assert_eq!(parse_task_id_from_result("task_id=\"\""), None);
    assert_eq!(parse_task_id_from_result("no id here"), None);
}

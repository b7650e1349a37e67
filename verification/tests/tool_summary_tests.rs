use hailux_tui::tool_summary::{split_lines, tool_result_summary};

fn chars(s: &str) -> Vec<char> {
    s.chars().collect()
}

fn lines(s: &str) -> Vec<String> {
    split_lines(&chars(s)).into_iter().map(|l| l.into_iter().collect()).collect()
}

#[test]
fn lines_match_str_lines() {
    for s in ["", "a", "a\n", "a\nb", "a\r\nb\r\n", "\n\n", "foo\r\nbar\n\nbaz\r", "x\ry"] {
        let expected: Vec<String> = s.lines().map(|l| l.to_string()).collect();
        assert_eq!(lines(s), expected, "input {:?}", s);
    }
}

#[test]
fn read_summaries() {
    let file = "<type>file</type><content>l1\nl2\nl3\n</content>";
    assert_eq!(tool_result_summary("read", file), "3 lines");
    let dir = "<type>directory</type><entries>a\n\n b\n  \n</entries>";
    assert_eq!(tool_result_summary("read", dir), "2 entries");
    assert_eq!(tool_result_summary("read", "<type>file</type><content></content>"), "");
    assert_eq!(tool_result_summary("read", ""), "");
}

#[test]
fn edit_and_bash_summaries() {
    assert_eq!(tool_result_summary("edit", "文件修改成功"), "done");
    assert_eq!(tool_result_summary("write", "  permission denied  "), "permission denied");
    assert_eq!(tool_result_summary("bash", " \n "), "no output");
    assert_eq!(tool_result_summary("bash", "one\ntwo\n"), "one\ntwo");
    assert_eq!(tool_result_summary("bash", "1\n2\n3\n4\n5"), "1\n2\n3\n... +2 lines");
}

#[test]
fn search_summaries() {
    let grep = "src/a.rs:\n  Line 3: x\n  Line 9: y\nsrc/b.rs:\n  Line 1: z\n";
    assert_eq!(tool_result_summary("grep", grep), "2 files, 3 matches");
    assert_eq!(tool_result_summary("grep", "未找到匹配"), "no matches");
    assert_eq!(tool_result_summary("grep", "something else"), "");
    assert_eq!(tool_result_summary("glob", "a.rs\nb.rs\n\n"), "2 files");
    assert_eq!(tool_result_summary("glob", "未找到文件"), "no matches");
}

#[test]
fn other_summaries() {
    assert_eq!(tool_result_summary("web_fetch", "héllo"), "5 chars");
    assert_eq!(tool_result_summary("todo_write", "1. ✓ a\n2. → b\n3. ○ c\n4. ✗ d"), "1/4 done");
    assert_eq!(tool_result_summary("ask_user", "[User Cancelled]"), "cancelled");
    assert_eq!(tool_result_summary("ask_user", "\"q\"=\"a\""), "answered");
    assert_eq!(
        tool_result_summary("task", "<task_result>\n  found it  \n</task_result>"),
        "found it"
    );
    assert_eq!(tool_result_summary("task", "<task_result> </task_result>"), "no output");
    assert_eq!(tool_result_summary("task", "a\nb\nc\nd\ne\nf\ng"), "a\nb\nc\nd\ne\n... +2 lines");
    let long = "x".repeat(70);
    assert_eq!(tool_result_summary("mcp_tool", &long), format!("{}...", "x".repeat(57)));
}

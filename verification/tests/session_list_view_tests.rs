use hailux_tui::mcp_view::{DialogRect, LineTone};
use hailux_tui::session_list_view::session_list_view;
use hailux_tui::session_picker::{SessionPickerState, SessionSummary};

fn session(id: &str, title: &str, at: &str) -> SessionSummary {
    SessionSummary {
        id: id.to_string(),
        title: title.to_string(),
        model: "m".to_string(),
        updated_at: at.to_string(),
    }
}

#[test]
fn sessions_are_grouped_by_date() {
    let ss = vec![
        session("a", "Fix bug", "2024-05-01T10:30:00Z"),
        session("b", "", "2024-05-01T09:00:00Z"),
        session("c", "Old", "2024-04-30T08:15:00Z"),
    ];
    let p = SessionPickerState::new(&ss);
    let v = session_list_view(100, 30, &p, &ss, Some("b"), "2024-05-01");
    assert_eq!(v.dialog, DialogRect { x: 20, y: 5, width: 60, height: 20 });
    assert_eq!(v.search, " 搜索: 输入关键词过滤...");
    let texts: Vec<String> = v.lines.iter().map(|l| l.text.clone()).collect();
    assert_eq!(
        texts,
        vec!["  Today", "   ▸ Fix bug  10:30", " ●   (新会话)  09:00", "  2024-04-30", "     Old  08:15"]
    );
    assert!(v.lines[1].selected);
    assert_eq!(v.lines[2].tone, LineTone::Picked);
    assert_eq!(v.lines[0].tone, LineTone::Hint);
    assert_eq!(v.help, format!("{}↑↓选择 Enter切换 Ctrl+D删除 Ctrl+N新建 Esc关闭", " ".repeat(6)));
}

#[test]
fn no_match_says_so() {
    let ss: Vec<SessionSummary> = Vec::new();
    let p = SessionPickerState::new(&ss);
    let v = session_list_view(10, 30, &p, &ss, None, "2024-05-01");
    let texts: Vec<String> = v.lines.iter().map(|l| l.text.clone()).collect();
    assert_eq!(texts, vec!["", "  没有找到匹配的会话"]);
    assert_eq!(v.dialog.width, 10);
}

#[test]
fn long_titles_are_cut() {
    let ss = vec![session("a", &"x".repeat(60), "2024-05-01T10:30:00Z")];
    let p = SessionPickerState::new(&ss);
    let v = session_list_view(100, 30, &p, &ss, None, "2024-05-02");
    assert_eq!(v.lines[0].text, "  2024-05-01");
    assert_eq!(v.lines[1].text, format!("   ▸ {}...  10:30", "x".repeat(41)));
}

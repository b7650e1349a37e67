use hailux_tui::mcp_view::{
    dialog_rect_of, mcp_detail_view, mcp_viewer_view, DialogRect, LineTone, McpServerView,
};

fn server(name: &str, transport: &str, connected: bool, error: Option<&str>) -> McpServerView {
    McpServerView {
        name: name.to_string(),
        transport: transport.to_string(),
        connected,
        server_name: String::new(),
        server_version: String::new(),
        tools: Vec::new(),
        resource_count: 0,
        prompt_count: 0,
        error: error.map(|e| e.to_string()),
        resources: Vec::new(),
        prompts: Vec::new(),
    }
}

fn texts(lines: &[hailux_tui::mcp_view::PanelLine]) -> Vec<String> {
    lines.iter().map(|l| l.text.clone()).collect()
}

#[test]
fn dialog_is_centred_and_clamped() {
    assert_eq!(dialog_rect_of(100, 30), DialogRect { x: 12, y: 5, width: 76, height: 20 });
    // 80% of (70 - 4) = 52, clamped to 48.
    assert_eq!(dialog_rect_of(60, 70), DialogRect { x: 0, y: 11, width: 60, height: 48 });
    // A short area still gets a dialog of 20 rows, at the top.
    assert_eq!(dialog_rect_of(40, 10), DialogRect { x: 0, y: 0, width: 40, height: 20 });
    // 80% of (40 - 4) = 28.
    assert_eq!(dialog_rect_of(80, 40), DialogRect { x: 2, y: 6, width: 76, height: 28 });
}

#[test]
fn list_shows_each_server_in_four_rows() {
    let mut fs = server("fs", "stdio", true, None);
    fs.server_name = "filesystem".to_string();
    fs.server_version = "1.0".to_string();
    fs.tools = vec!["read".to_string(), "write".to_string()];
    fs.resource_count = 2;
    let servers = vec![
        fs,
        server("b", "http", false, Some("连接中...")),
        server("c", "sse", false, Some("boom")),
    ];
    let v = mcp_viewer_view(100, 30, &servers, 0, "/cfg/mcp.toml");
    assert_eq!(v.dialog, DialogRect { x: 12, y: 5, width: 76, height: 20 });
    assert_eq!(v.title, " MCP 服务器 (1/3) ");
    assert_eq!(v.first, 0);
    assert_eq!(
        texts(&v.lines),
        vec![
            "▸ ● fs [stdio]",
            "  filesystem 1.0",
            "  工具: 2  ·  资源: 2  ·  read, write",
            "",
            "  ✗ b [http]",
            "  未连接",
            "  连接中...",
            "",
            "  ✗ c [sse]",
            "  未连接",
            "  boom",
            "",
        ]
    );
    assert!(v.lines[0].selected && v.lines[2].selected && !v.lines[3].selected);
    assert!(!v.lines[4].selected);
    assert_eq!(v.lines[2].tone, LineTone::Dim);
    assert_eq!(v.lines[6].tone, LineTone::Connecting);
    assert_eq!(v.lines[10].tone, LineTone::Failed);
}

#[test]
fn connected_server_without_reported_name() {
    let mut s = server("git", "stdio", true, None);
    s.prompt_count = 3;
    let v = mcp_viewer_view(100, 30, &[s], 1, "x");
    assert_eq!(texts(&v.lines), vec!["  ● git [stdio]", "  已连接", "  工具: 0  ·  提示: 3", ""]);
    assert_eq!(v.title, " MCP 服务器 (1/1) ");
}

#[test]
fn list_scrolls_to_keep_selection_in_view() {
    let servers: Vec<McpServerView> =
        (0..10).map(|i| server(&format!("s{}", i), "stdio", false, None)).collect();
    // 16 content rows: 4 entries fit; selection 7 starts the window at 7 - 2.
    let v = mcp_viewer_view(100, 30, &servers, 7, "x");
    assert_eq!(v.first, 5);
    assert_eq!(v.lines.len(), 16);
    assert_eq!(v.lines[0].text, "  ✗ s5 [stdio]");
    assert_eq!(v.lines[8].text, "▸ ✗ s7 [stdio]");
    assert_eq!(v.lines[12].text, "  ✗ s8 [stdio]");
    assert_eq!(v.title, " MCP 服务器 (0/10) ");
}

#[test]
fn list_without_servers_says_where_to_configure() {
    let v = mcp_viewer_view(100, 30, &[], 0, "/home/u/.config/mcp.toml");
    assert_eq!(v.title, " MCP 服务器 (0/0) ");
    assert_eq!(v.lines.len(), 13);
    assert_eq!(v.lines[1].text, "  未配置任何 MCP 服务器");
    assert_eq!(v.lines[1].tone, LineTone::Warning);
    assert_eq!(v.lines[4].text, "    /home/u/.config/mcp.toml");
    assert_eq!(v.lines[12].text, "  url = \"https://example.com/mcp\"");
}

#[test]
fn detail_lists_sections_with_descriptions() {
    let mut s = server("fs", "stdio", true, None);
    s.tools = vec!["read".to_string()];
    s.resources = vec![("res1".to_string(), String::new())];
    let servers = vec![s];
    let d = mcp_detail_view(100, 30, &servers, 0, 0, &["Reads a file".to_string()]).unwrap();
    assert_eq!(d.title, " fs ");
    assert_eq!(d.scroll, 0);
    assert_eq!(
        texts(&d.lines),
        vec![" 工具 (1)", "", "▸ 🔧 read", "  Reads a file", " 资源 (1)", "", "  📄 res1", "  (无描述)"]
    );
    assert_eq!(d.lines[0].tone, LineTone::ToolsHeading);
    assert_eq!(d.lines[4].tone, LineTone::ResourcesHeading);
    assert!(d.lines[3].selected && !d.lines[6].selected);
}

#[test]
fn detail_cuts_long_descriptions_to_two_rows() {
    let mut s = server("fs", "stdio", true, None);
    s.prompts = vec![("p".to_string(), "a".repeat(40))];
    // 20 columns: 18 inside the border, 15 for a description.
    let d = mcp_detail_view(20, 30, &[s], 0, 0, &[]).unwrap();
    assert_eq!(
        texts(&d.lines),
        vec![
            " 提示词 (1)".to_string(),
            String::new(),
            "▸ 💬 p".to_string(),
            format!("  {}", "a".repeat(15)),
            format!("  {}…", "a".repeat(14)),
        ]
    );
    assert_eq!(d.lines[0].tone, LineTone::PromptsHeading);
}

#[test]
fn detail_scrolls_to_selection() {
    let mut s = server("fs", "stdio", true, None);
    s.tools = (0..20).map(|i| format!("t{}", i)).collect();
    let d = mcp_detail_view(100, 30, &[s], 0, 15, &[]).unwrap();
    // The name of tool 15 is row 2 + 15 * 2 = 32; 16 rows fit, so the page starts at 24.
    assert_eq!(d.scroll, 24);
    assert_eq!(d.lines.len(), 16);
    assert_eq!(d.lines[0].text, "  🔧 t11");
    assert_eq!(d.lines[8].text, "▸ 🔧 t15");
    assert_eq!(d.lines[9].text, "  (无描述)");
}

#[test]
fn detail_of_empty_server_and_missing_server() {
    let servers = vec![server("x", "stdio", false, None)];
    let d = mcp_detail_view(100, 30, &servers, 0, 0, &[]).unwrap();
    assert_eq!(texts(&d.lines), vec!["", "  此服务器没有暴露任何工具、资源或提示词"]);
    assert!(mcp_detail_view(100, 30, &servers, 1, 0, &[]).is_none());
}

use hailux_tui::mcp_view::{DialogRect, LineTone};
use hailux_tui::model_list_view::{switcher_view, ModelRow};

fn model(provider: &str, name: &str, id: &str, setup: bool) -> ModelRow {
    ModelRow {
        provider_name: provider.to_string(),
        display: format!("{}/{}", provider, name),
        model_name: name.to_string(),
        model_id: id.to_string(),
        needs_setup: setup,
    }
}

#[test]
fn switcher_groups_models_by_provider() {
    let ms = vec![
        model("OpenAI", "gpt-4o", "gpt-4o", false),
        model("OpenAI", "o3", "o3-2025", false),
        model("Local", "llama", "llama", true),
    ];
    let v = switcher_view(100, 30, &ms, 0, "OpenAI/o3");
    assert_eq!(v.dialog, DialogRect { x: 25, y: 5, width: 50, height: 20 });
    assert_eq!(v.scroll, 0);
    let texts: Vec<String> = v.lines.iter().map(|l| l.text.clone()).collect();
    assert_eq!(
        texts,
        vec![
            "  ── OpenAI ".to_string(),
            "    gpt-4o".to_string(),
            "  ● o3  (o3-2025)".to_string(),
            "  ── Local ".to_string(),
            "    llama (需配置)".to_string(),
            String::new(),
            "  + 添加自定义模型...".to_string(),
            String::new(),
            format!("{}↑↓选择 Enter确认 Esc关闭", " ".repeat(12)),
        ]
    );
    assert!(v.lines[1].selected);
    assert_eq!(v.lines[2].tone, LineTone::Picked);
    assert_eq!(v.lines[0].tone, LineTone::Muted);
    assert!(!v.lines[6].selected);
}

#[test]
fn switcher_scrolls_to_selection() {
    let ms: Vec<ModelRow> = (0..30).map(|i| model("P", &format!("m{}", i), &format!("m{}", i), false)).collect();
    let v = switcher_view(100, 30, &ms, 20, "none");
    assert_eq!(v.scroll, 12);
    assert_eq!(v.lines.len(), 19);
    assert_eq!(v.lines[0].text, "  ── P ");
    assert_eq!(v.lines[1].text, "    m12");
    assert_eq!(v.lines[9].text, "    m20");
    assert!(v.lines[9].selected);
    assert_eq!(v.lines[16].text, "    m27");
}

#[test]
fn add_row_is_selectable() {
    let ms = vec![model("P", "a", "a", false)];
    let v = switcher_view(100, 30, &ms, 1, "P/a");
    assert_eq!(v.lines[1].text, "  ● a");
    assert_eq!(v.lines[1].tone, LineTone::Picked);
    assert_eq!(v.lines[3].text, "  + 添加自定义模型...");
    assert!(v.lines[3].selected);
}

use hailux_tui::add_model_view::add_model_view;
use hailux_tui::keys::{KeyCode, KeyEvent, KeyEventKind};
use hailux_tui::mcp_view::{DialogRect, LineTone};
use hailux_tui::model_picker::{AddModelForm, ProviderInfo};

fn key(code: KeyCode) -> KeyEvent {
    KeyEvent { code, ctrl: false, alt: false, shift: false, kind: KeyEventKind::Press }
}

#[test]
fn provider_step_lists_endpoints() {
    let form = AddModelForm::new(vec![ProviderInfo {
        id: "openai".to_string(),
        base_url: "https://api.openai.com/v1".to_string(),
    }]);
    let v = add_model_view(100, 30, &form);
    assert_eq!(v.dialog, DialogRect { x: 21, y: 8, width: 58, height: 14 });
    let rule = format!(" ─{}", "─".repeat(53));
    let mut expected: Vec<String> = vec![
        "  选择目标服务商".to_string(),
        rule.clone(),
        "  openai  https://api.openai.com/v1".to_string(),
        rule,
        "  + 新增自定义端点".to_string(),
    ];
    expected.extend(std::iter::repeat(String::new()).take(6));
    expected.push(format!("{}Enter 确认 · Esc 返回", " ".repeat(17)));
    let texts: Vec<String> = v.lines.iter().map(|l| l.text.clone()).collect();
    assert_eq!(texts, expected);
    assert!(v.lines[2].selected && !v.lines[4].selected);
    assert_eq!(v.lines[4].tone, LineTone::Accent);
    assert_eq!(v.cursor, (0, 0));
}

#[test]
fn input_step_shows_prompt_and_places_cursor() {
    let mut form = AddModelForm::new(Vec::new());
    form.handle_key(&key(KeyCode::Enter));
    let v = add_model_view(100, 30, &form);
    assert_eq!(v.dialog, DialogRect { x: 21, y: 10, width: 58, height: 10 });
    let texts: Vec<String> = v.lines.iter().map(|l| l.text.clone()).collect();
    assert_eq!(
        texts,
        vec![
            " 步骤 1/5".to_string(),
            format!(" ─{}", "─".repeat(53)),
            " 请输入服务商名称".to_string(),
            " 用于标识，如 ollama、siliconflow".to_string(),
            String::new(),
            " > ".to_string(),
            String::new(),
            format!("{}Enter 确认 · Esc 返回", " ".repeat(17)),
        ]
    );
    assert_eq!(v.cursor, (25, 16));
    form.handle_key(&key(KeyCode::Char('o')));
    form.handle_key(&key(KeyCode::Char('k')));
    let v = add_model_view(100, 30, &form);
    assert_eq!(v.lines[5].text, " > ok");
    assert_eq!(v.cursor, (27, 16));
}

#[test]
fn error_is_shown_under_the_input() {
    let mut form = AddModelForm::new(Vec::new());
    form.handle_key(&key(KeyCode::Enter));
    form.handle_key(&key(KeyCode::Enter));
    let v = add_model_view(100, 30, &form);
    let texts: Vec<String> = v.lines.iter().map(|l| l.text.clone()).collect();
    assert_eq!(texts[6], "");
    assert_eq!(texts[7], " ⚠ 服务商名称不能为空");
    assert_eq!(v.lines[7].tone, LineTone::Failed);
    // 6 + 1 + 1 + 1 + 2 rows needed.
    assert_eq!(v.dialog.height, 11);
}

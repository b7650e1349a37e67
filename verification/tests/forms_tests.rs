use hailux_tui::keys::{KeyCode, KeyEvent, KeyEventKind};
use hailux_tui::line_edit::{parse_u32, strip_line_breaks, LineEdit};
use hailux_tui::model_picker::{
    initial_model_index, model_picker_key, wrap_input, AddModelForm, AddModelOutcome,
    AddModelStep, FormError, ModelPickerAction, ProviderInfo,
};
use hailux_tui::setup::{PredefinedProvider, SetupForm, SetupOutcome, SetupStep};

fn key(code: KeyCode) -> KeyEvent {
    KeyEvent { code, ctrl: false, alt: false, shift: false, kind: KeyEventKind::Press }
}

fn chars(s: &str) -> Vec<char> {
    s.chars().collect()
}

// ----- line field -----

#[test]
fn line_field_edits_by_character() {
    let mut f = LineEdit::new();
    for c in "héllo".chars() {
        f.edit(KeyCode::Char(c));
    }
    assert_eq!(f.text(), "héllo");
    assert_eq!(f.byte_cursor(), 6);
    f.edit(KeyCode::Left);
    f.edit(KeyCode::Left);
    f.edit(KeyCode::Left);
    f.edit(KeyCode::Left);
    assert_eq!(f.byte_cursor(), 1);
    f.edit(KeyCode::Delete);
    assert_eq!(f.text(), "hllo");
    f.edit(KeyCode::Backspace);
    assert_eq!(f.text(), "llo");
    assert_eq!(f.byte_cursor(), 0);
    f.edit(KeyCode::Backspace);
    assert_eq!(f.text(), "llo");
    f.edit(KeyCode::End);
    assert_eq!(f.byte_cursor(), 3);
    f.edit(KeyCode::Right);
    assert_eq!(f.byte_cursor(), 3);
    f.edit(KeyCode::Home);
    assert_eq!(f.byte_cursor(), 0);
}

#[test]
fn typed_char_is_erased_by_backspace() {
    let mut f = LineEdit::from_str("ab");
    f.edit(KeyCode::Left);
    f.edit(KeyCode::Char('✓'));
    assert_eq!(f.text(), "a✓b");
    f.edit(KeyCode::Backspace);
    assert_eq!(f.text(), "ab");
    assert_eq!(f.byte_cursor(), 1);
}

#[test]
fn paste_loses_line_breaks() {
    assert_eq!(strip_line_breaks("a\r\nb\nc"), chars("abc"));
    let mut f = LineEdit::from_str("xy");
    f.edit(KeyCode::Left);
    f.insert_chars(&strip_line_breaks("1\n2"));
    assert_eq!(f.text(), "x12y");
}

#[test]
fn parses_like_str_parse_u32() {
    assert_eq!(parse_u32(&chars("131072")), Some(131072));
    assert_eq!(parse_u32(&chars("+7")), Some(7));
    assert_eq!(parse_u32(&chars("4294967295")), Some(u32::MAX));
    assert_eq!(parse_u32(&chars("4294967296")), None);
    assert_eq!(parse_u32(&chars("99999999999x")), None);
    assert_eq!(parse_u32(&chars("")), None);
    assert_eq!(parse_u32(&chars("+")), None);
    assert_eq!(parse_u32(&chars("-1")), None);
    assert_eq!(parse_u32(&chars("12 ")), None);
    for s in ["0", "42", "65536", "1000000"] {
        assert_eq!(parse_u32(&chars(s)), s.parse::<u32>().ok());
    }
}

// ----- wrapping the input box -----

#[test]
fn wrap_input_breaks_at_width() {
    let (lines, row, col) = wrap_input("abcdef", 6, 4);
    assert_eq!(lines, vec!["abcd".to_string(), "ef".to_string()]);
    assert_eq!((row, col), (1, 2));
    let (lines, row, col) = wrap_input("abcdef", 4, 4);
    assert_eq!(lines.len(), 2);
    assert_eq!((row, col), (1, 0));
    let (_, row, col) = wrap_input("abcdef", 2, 4);
    assert_eq!((row, col), (0, 2));
}

#[test]
fn wrap_input_counts_wide_characters() {
    let (lines, row, col) = wrap_input("你好吗", 9, 4);
    assert_eq!(lines, vec!["你好".to_string(), "吗".to_string()]);
    assert_eq!((row, col), (1, 2));
    let (lines, _, _) = wrap_input("你", 0, 1);
    assert_eq!(lines, vec![String::new(), "你".to_string()]);
}

#[test]
fn wrap_input_zero_width_and_odd_cursor() {
    assert_eq!(wrap_input("abc", 1, 0), (vec![String::new()], 0, 0));
    let (lines, row, col) = wrap_input("é", 1, 10);
    assert_eq!(lines, vec!["é".to_string()]);
    assert_eq!((row, col), (0, 0));
    assert_eq!(wrap_input("", 0, 5), (vec![String::new()], 0, 0));
}

// ----- add-model form -----

fn providers() -> Vec<ProviderInfo> {
    vec![ProviderInfo { id: "deepseek".to_string(), base_url: "https://api.deepseek.com".to_string() }]
}

fn type_text(form: &mut AddModelForm, s: &str) {
    for c in s.chars() {
        assert!(matches!(form.handle_key(&key(KeyCode::Char(c))), AddModelOutcome::Stay));
    }
}

#[test]
fn add_model_for_existing_provider() {
    let mut form = AddModelForm::new(providers());
    assert_eq!(form.step(), AddModelStep::SelectProvider);
    form.handle_key(&key(KeyCode::Down));
    form.handle_key(&key(KeyCode::Down));
    assert_eq!(form.selected_index(), 1);
    form.handle_key(&key(KeyCode::Up));
    form.handle_key(&key(KeyCode::Enter));
    assert_eq!(form.step(), AddModelStep::InputModelName);
    assert_eq!(form.provider_id(), "deepseek");
    form.handle_key(&key(KeyCode::Enter));
    assert_eq!(form.error_msg(), "模型名称不能为空");
    type_text(&mut form, "deepseek-chat");
    assert_eq!(form.error_msg(), "");
    form.handle_key(&key(KeyCode::Enter));
    assert_eq!(form.step(), AddModelStep::InputContextWindow);
    assert_eq!(form.buffer(), "131072");
    assert_eq!(form.cursor(), 6);
    match form.handle_key(&key(KeyCode::Enter)) {
        AddModelOutcome::Save(m) => {
            assert_eq!(m.provider_id, "deepseek");
            assert_eq!(m.model_name, "deepseek-chat");
            assert_eq!(m.context_window, 131072);
            assert_eq!(m.base_url, None);
            assert_eq!(m.api_key, None);
        }
        _ => panic!("expected Save"),
    }
}

#[test]
fn add_model_with_new_provider() {
    let mut form = AddModelForm::new(providers());
    form.handle_key(&key(KeyCode::Down));
    form.handle_key(&key(KeyCode::Enter));
    assert_eq!(form.step(), AddModelStep::InputProviderName);
    form.handle_key(&key(KeyCode::Enter));
    assert_eq!(form.error_msg(), FormError::EmptyProviderName.message());
    type_text(&mut form, "local");
    form.handle_key(&key(KeyCode::Enter));
    assert_eq!(form.step(), AddModelStep::InputBaseUrl);
    form.handle_paste("http://localhost:8000\n");
    assert_eq!(form.buffer(), "http://localhost:8000");
    form.handle_key(&key(KeyCode::Enter));
    form.handle_key(&key(KeyCode::Enter));
    assert_eq!(form.error_msg(), "API Key 不能为空");
    type_text(&mut form, "sk-1");
    form.handle_key(&key(KeyCode::Enter));
    type_text(&mut form, "qwen");
    form.handle_key(&key(KeyCode::Enter));
    assert_eq!(form.step(), AddModelStep::InputContextWindow);
    for _ in 0..6 {
        form.handle_key(&key(KeyCode::Backspace));
    }
    type_text(&mut form, "32k");
    assert!(matches!(form.handle_key(&key(KeyCode::Enter)), AddModelOutcome::Stay));
    assert_eq!(form.error_msg(), "请输入有效的数字");
    form.handle_key(&key(KeyCode::Backspace));
    type_text(&mut form, "000");
    match form.handle_key(&key(KeyCode::Enter)) {
        AddModelOutcome::Save(m) => {
            assert_eq!(m.provider_id, "local");
            assert_eq!(m.base_url, Some("http://localhost:8000".to_string()));
            assert_eq!(m.api_key, Some("sk-1".to_string()));
            assert_eq!(m.model_name, "qwen");
            assert_eq!(m.context_window, 32000);
        }
        _ => panic!("expected Save"),
    }
}

#[test]
fn add_model_empty_window_uses_default_and_esc_cancels() {
    let mut form = AddModelForm::new(Vec::new());
    form.handle_paste("ignored");
    assert_eq!(form.buffer(), "");
    assert!(matches!(form.handle_key(&key(KeyCode::Esc)), AddModelOutcome::Cancel));
    form.handle_key(&key(KeyCode::Enter));
    type_text(&mut form, "p");
    form.handle_key(&key(KeyCode::Enter));
    type_text(&mut form, "u");
    form.handle_key(&key(KeyCode::Enter));
    type_text(&mut form, "k");
    form.handle_key(&key(KeyCode::Enter));
    type_text(&mut form, "m");
    form.handle_key(&key(KeyCode::Enter));
    form.handle_key(&key(KeyCode::End));
    for _ in 0..6 {
        form.handle_key(&key(KeyCode::Backspace));
    }
    match form.handle_key(&key(KeyCode::Enter)) {
        AddModelOutcome::Save(m) => assert_eq!(m.context_window, 131072),
        _ => panic!("expected Save"),
    }
    form.set_error_msg("保存失败: disk".to_string());
    assert_eq!(form.error_msg(), "保存失败: disk");
}

// ----- model picker -----

#[test]
fn model_picker_moves_and_picks() {
    let mut sel = 0usize;
    assert_eq!(model_picker_key(&key(KeyCode::Up), &mut sel, 2), None);
    assert_eq!(sel, 0);
    model_picker_key(&key(KeyCode::Down), &mut sel, 2);
    model_picker_key(&key(KeyCode::Down), &mut sel, 2);
    model_picker_key(&key(KeyCode::Down), &mut sel, 2);
    assert_eq!(sel, 2);
    assert_eq!(
        model_picker_key(&key(KeyCode::Enter), &mut sel, 2),
        Some(ModelPickerAction::AddModel)
    );
    sel = 1;
    assert_eq!(
        model_picker_key(&key(KeyCode::Enter), &mut sel, 2),
        Some(ModelPickerAction::Switch(1))
    );
    assert_eq!(
        model_picker_key(&key(KeyCode::Esc), &mut sel, 2),
        Some(ModelPickerAction::Close)
    );
    let shown = vec!["a/x".to_string(), "b/y".to_string()];
    assert_eq!(initial_model_index(&shown, "b/y"), 1);
    assert_eq!(initial_model_index(&shown, "c/z"), 0);
}

// ----- setup wizard -----

fn offered() -> Vec<PredefinedProvider> {
    vec![
        PredefinedProvider {
            id: "deepseek".to_string(),
            model_ids: vec!["deepseek-chat".to_string(), "deepseek-reasoner".to_string()],
        },
        PredefinedProvider { id: "moonshot".to_string(), model_ids: vec!["kimi-k2".to_string()] },
    ]
}

fn setup_type(form: &mut SetupForm, s: &str, p: &[PredefinedProvider]) {
    for c in s.chars() {
        assert_eq!(form.handle_key(&key(KeyCode::Char(c)), p), SetupOutcome::Stay);
    }
}

#[test]
fn setup_predefined_provider_flow() {
    let p = offered();
    let mut form = SetupForm::new();
    assert_eq!(form.step(), SetupStep::Welcome);
    form.handle_key(&key(KeyCode::Enter), &p);
    assert_eq!(form.step(), SetupStep::SelectProvider);
    form.handle_key(&key(KeyCode::Down), &p);
    form.handle_key(&key(KeyCode::Enter), &p);
    assert_eq!(form.step(), SetupStep::PredefinedInputApiKey);
    assert_eq!(form.provider_index(), 1);
    assert!(!form.is_custom());
    form.handle_key(&key(KeyCode::Enter), &p);
    assert_eq!(form.error_msg(), "API Key 不能为空");
    form.handle_paste("sk-abc\r\n");
    assert_eq!(form.error_msg(), "");
    form.handle_key(&key(KeyCode::Enter), &p);
    assert_eq!(form.step(), SetupStep::PredefinedSelectModel);
    assert_eq!(form.api_key(), "sk-abc");
    form.handle_key(&key(KeyCode::Down), &p);
    assert_eq!(form.selected_index(), 0);
    form.handle_key(&key(KeyCode::Enter), &p);
    assert_eq!(form.step(), SetupStep::Done);
    assert_eq!(form.model_id(), "kimi-k2");
    assert_eq!(form.handle_key(&key(KeyCode::Enter), &p), SetupOutcome::Finish);
}

#[test]
fn setup_custom_flow_and_back_navigation() {
    let p = offered();
    let mut form = SetupForm::new();
    form.handle_key(&key(KeyCode::Enter), &p);
    form.handle_key(&key(KeyCode::Down), &p);
    form.handle_key(&key(KeyCode::Down), &p);
    form.handle_key(&key(KeyCode::Down), &p);
    assert_eq!(form.selected_index(), 2);
    form.handle_key(&key(KeyCode::Enter), &p);
    assert_eq!(form.step(), SetupStep::CustomInputProviderName);
    assert!(form.is_custom());
    setup_type(&mut form, "mine", &p);
    form.handle_key(&key(KeyCode::Enter), &p);
    assert_eq!(form.step(), SetupStep::CustomInputBaseUrl);
    // Esc brings the name back into the field.
    form.handle_key(&key(KeyCode::Esc), &p);
    assert_eq!(form.step(), SetupStep::CustomInputProviderName);
    assert_eq!(form.buffer(), "mine");
    assert_eq!(form.cursor(), 4);
    form.handle_key(&key(KeyCode::Enter), &p);
    setup_type(&mut form, "http://h", &p);
    form.handle_key(&key(KeyCode::Enter), &p);
    setup_type(&mut form, "key", &p);
    form.handle_key(&key(KeyCode::Enter), &p);
    setup_type(&mut form, "model-x", &p);
    form.handle_key(&key(KeyCode::Enter), &p);
    assert_eq!(form.step(), SetupStep::CustomInputContextWindow);
    assert_eq!(form.buffer(), "131072");
    setup_type(&mut form, "x", &p);
    form.handle_key(&key(KeyCode::Enter), &p);
    assert_eq!(form.error_msg(), "请输入有效的数字");
    form.handle_key(&key(KeyCode::Backspace), &p);
    form.handle_key(&key(KeyCode::Enter), &p);
    assert_eq!(form.step(), SetupStep::Done);
    assert_eq!(form.context_window(), "131072");
    assert_eq!(form.provider_id(), "mine");
    assert_eq!(form.base_url(), "http://h");
    assert_eq!(form.model_id(), "model-x");
    form.handle_key(&key(KeyCode::Esc), &p);
    assert_eq!(form.step(), SetupStep::SelectProvider);
    assert_eq!(form.selected_index(), 2);
    form.handle_key(&key(KeyCode::Esc), &p);
    assert_eq!(form.step(), SetupStep::Welcome);
    assert_eq!(form.handle_key(&key(KeyCode::Esc), &p), SetupOutcome::Quit);
}

#[test]
fn setup_empty_context_window_is_accepted() {
    let p = offered();
    let mut form = SetupForm::new();
    form.handle_key(&key(KeyCode::Enter), &p);
    form.handle_key(&key(KeyCode::Down), &p);
    form.handle_key(&key(KeyCode::Down), &p);
    form.handle_key(&key(KeyCode::Enter), &p);
    for s in ["n", "u", "k", "m"] {
        setup_type(&mut form, s, &p);
        form.handle_key(&key(KeyCode::Enter), &p);
    }
    form.handle_key(&key(KeyCode::Home), &p);
    for _ in 0..6 {
        form.handle_key(&key(KeyCode::Delete), &p);
    }
    assert_eq!(form.buffer(), "");
    form.handle_key(&key(KeyCode::Enter), &p);
    assert_eq!(form.step(), SetupStep::Done);
    assert_eq!(form.context_window(), "");
}

#[test]
fn setup_for_provider_key_from_model_picker() {
    let p = offered();
    let form = SetupForm::for_provider_key(&p, "moonshot");
    assert_eq!(form.step(), SetupStep::PredefinedInputApiKey);
    assert_eq!(form.provider_index(), 1);
    assert!(form.append_only());
    let form = SetupForm::for_provider_key(&p, "unknown");
    assert_eq!(form.provider_index(), 0);
    assert_eq!(form.provider_id(), "unknown");
}

#[test]
fn setup_back_from_model_choice_restores_key() {
    let p = offered();
    let mut form = SetupForm::for_provider_key(&p, "deepseek");
    setup_type(&mut form, "k1", &p);
    form.handle_key(&key(KeyCode::Enter), &p);
    assert_eq!(form.step(), SetupStep::PredefinedSelectModel);
    form.handle_key(&key(KeyCode::Esc), &p);
    assert_eq!(form.step(), SetupStep::PredefinedInputApiKey);
    assert_eq!(form.buffer(), "k1");
    form.handle_key(&key(KeyCode::Esc), &p);
    assert_eq!(form.step(), SetupStep::SelectProvider);
    assert_eq!(form.selected_index(), 0);
}

#[test]
fn wrapped_lines_join_back_to_text() {
    for (text, width) in [("hello wide 世界 world", 5), ("a", 1), ("", 3), ("世界世界", 3), ("abc", 1)] {
        let (lines, _, _) = wrap_input(text, 0, width);
        assert_eq!(lines.concat(), text, "text {:?} width {}", text, width);
    }
}

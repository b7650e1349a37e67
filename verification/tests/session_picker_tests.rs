use hailux_tui::keys::{KeyCode, KeyEvent, KeyEventKind};
use hailux_tui::session_picker::{
    filter_sessions, format_date_category, format_time_short, PickerAction, SessionPickerState,
    SessionSummary,
};

fn s(id: &str, title: &str, model: &str) -> SessionSummary {
    SessionSummary {
        id: id.to_string(),
        title: title.to_string(),
        model: model.to_string(),
        updated_at: "2025-01-02T03:04:05".to_string(),
    }
}

fn sessions() -> Vec<SessionSummary> {
    vec![
        s("a", "Fix Parser", "deepseek/chat"),
        s("b", "Write docs", "moonshot/kimi"),
        s("c", "parse logs", "deepseek/reasoner"),
    ]
}

fn key(code: KeyCode, ctrl: bool) -> KeyEvent {
    KeyEvent { code, ctrl, alt: false, shift: false, kind: KeyEventKind::Press }
}

#[test]
fn filter_matches_title_or_model_ignoring_case() {
    let ss = sessions();
    assert_eq!(filter_sessions(&ss, ""), vec![0, 1, 2]);
    assert_eq!(filter_sessions(&ss, "PARSE"), vec![0, 2]);
    assert_eq!(filter_sessions(&ss, "kimi"), vec![1]);
    assert!(filter_sessions(&ss, "zzz").is_empty());
}

#[test]
fn typing_filters_and_enter_switches() {
    let ss = sessions();
    let mut p = SessionPickerState::new(&ss);
    assert_eq!(p.filtered_indices, vec![0, 1, 2]);
    assert_eq!(p.handle_key(&key(KeyCode::Down, false), &ss), PickerAction::Nothing);
    assert_eq!(p.selected_index, 1);
    assert_eq!(p.handle_key(&key(KeyCode::Char('d'), false), &ss), PickerAction::Nothing);
    assert_eq!(p.search_query, "d");
    assert_eq!(p.filtered_indices, vec![0, 1, 2]);
    assert_eq!(p.selected_index, 0);
    p.handle_key(&key(KeyCode::Char('o'), false), &ss);
    assert_eq!(p.filtered_indices, vec![1]);
    assert_eq!(p.handle_key(&key(KeyCode::Enter, false), &ss), PickerAction::Switch(1));
    p.handle_key(&key(KeyCode::Backspace, false), &ss);
    assert_eq!(p.search_query, "d");
    assert_eq!(p.filtered_indices, vec![0, 1, 2]);
    assert_eq!(p.handle_key(&key(KeyCode::Esc, false), &ss), PickerAction::Close);
}

#[test]
fn control_keys_create_and_delete() {
    let ss = sessions();
    let mut p = SessionPickerState::new(&ss);
    assert_eq!(p.handle_key(&key(KeyCode::Char('n'), true), &ss), PickerAction::NewSession);
    p.handle_key(&key(KeyCode::Down, false), &ss);
    p.handle_key(&key(KeyCode::Down, false), &ss);
    assert_eq!(p.handle_key(&key(KeyCode::Char('d'), true), &ss), PickerAction::Delete(2));
    let fewer = vec![sessions()[0].clone(), sessions()[1].clone()];
    p.after_reload(&fewer);
    assert_eq!(p.filtered_indices, vec![0, 1]);
    assert_eq!(p.selected_index, 1);
    assert_eq!(p.handle_key(&key(KeyCode::Char('c'), true), &ss), PickerAction::Nothing);
}

#[test]
fn empty_list_switches_nowhere() {
    let ss: Vec<SessionSummary> = Vec::new();
    let mut p = SessionPickerState::new(&ss);
    assert_eq!(p.handle_key(&key(KeyCode::Enter, false), &ss), PickerAction::Nothing);
    assert_eq!(p.handle_key(&key(KeyCode::Char('d'), true), &ss), PickerAction::Nothing);
}

#[test]
fn date_and_time_labels() {
    assert_eq!(format_date_category("2025-01-02T03:04:05", "2025-01-02"), "Today");
    assert_eq!(format_date_category("2024-12-31T23:59:00", "2025-01-02"), "2024-12-31");
    assert_eq!(format_date_category("short", "2025-01-02"), "Today");
    assert_eq!(format_time_short("2025-01-02T03:04:05"), "03:04");
    assert_eq!(format_time_short("2025-01-02"), "--:--");
}

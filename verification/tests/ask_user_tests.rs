use hailux_tui::ask_user::{
    answered_questions, format_reply, parse_ask_user_pairs, AskUserState, QuestionInfo, QuestionOption,
};
use hailux_tui::keys::{KeyCode, KeyEvent, KeyEventKind};

fn key(code: KeyCode) -> KeyEvent {
    KeyEvent { code, ctrl: false, alt: false, shift: false, kind: KeyEventKind::Press }
}

fn q(question: &str, labels: &[&str]) -> QuestionInfo {
    QuestionInfo {
        header: "H".to_string(),
        question: question.to_string(),
        options: labels
            .iter()
            .map(|l| QuestionOption { label: l.to_string(), description: String::new() })
            .collect(),
    }
}

#[test]
fn reply_formats_pairs_and_escapes_quotes() {
    let qs = vec![q("Which \"db\"?", &[]), q("Port?", &[])];
    let answers = vec![Some("pg \"16\"".to_string()), None];
    assert_eq!(
        format_reply(&qs, &answers),
        "\"Which \\\"db\\\"?\"=\"pg \\\"16\\\"\", \"Port?\"=\"Unanswered\""
    );
    assert_eq!(format_reply(&[], &[]), "");
}

#[test]
fn single_question_ends_on_option() {
    let mut s = AskUserState::new(vec![q("Color?", &["red", "blue"])]);
    assert_eq!(s.handle_key(&key(KeyCode::Down), 0), None);
    assert_eq!(s.selected(), 1);
    assert_eq!(
        s.handle_key(&key(KeyCode::Enter), 1_000),
        Some("\"Color?\"=\"blue\"".to_string())
    );
}

#[test]
fn digits_pick_options_and_rows_cycle() {
    let mut s = AskUserState::new(vec![q("A?", &["x", "y"]), q("B?", &["z"])]);
    s.handle_key(&key(KeyCode::Up), 0);
    assert_eq!(s.selected(), 2);
    s.handle_key(&key(KeyCode::Down), 0);
    assert_eq!(s.selected(), 0);
    assert_eq!(s.handle_key(&key(KeyCode::Char('4')), 0), None);
    assert_eq!(s.current_tab(), 0);
    assert_eq!(s.handle_key(&key(KeyCode::Char('2')), 0), None);
    assert_eq!(s.current_tab(), 1);
    assert_eq!(s.answers()[0], Some("y".to_string()));
    assert_eq!(s.handle_key(&key(KeyCode::Char('1')), 0), None);
    assert_eq!(s.current_tab(), 2);
    assert_eq!(
        s.handle_key(&key(KeyCode::Enter), 0),
        Some("\"A?\"=\"y\", \"B?\"=\"z\"".to_string())
    );
}

#[test]
fn free_text_answer_is_trimmed() {
    let mut s = AskUserState::new(vec![q("Name?", &["default"]), q("Why?", &[])]);
    s.handle_key(&key(KeyCode::Down), 0);
    s.handle_key(&key(KeyCode::Enter), 0);
    assert!(s.editing_custom());
    for c in " Zoë ".chars() {
        s.handle_key(&key(KeyCode::Char(c)), 0);
    }
    assert_eq!(s.custom_inputs()[0], " Zoë ");
    assert_eq!(s.custom_cursor(), 6);
    s.handle_key(&key(KeyCode::Left), 0);
    s.handle_key(&key(KeyCode::Left), 0);
    assert_eq!(s.custom_cursor(), 3);
    s.handle_key(&key(KeyCode::Backspace), 0);
    assert_eq!(s.custom_inputs()[0], " Zë ");
    s.handle_key(&key(KeyCode::End), 0);
    s.handle_key(&key(KeyCode::Enter), 0);
    assert_eq!(s.answers()[0], Some("Zë".to_string()));
    assert_eq!(s.custom_inputs()[0], "Zë");
    assert_eq!(s.current_tab(), 1);
    assert!(!s.editing_custom());
}

#[test]
fn empty_free_text_just_stops_typing() {
    let mut s = AskUserState::new(vec![q("Q?", &[])]);
    s.handle_key(&key(KeyCode::Enter), 0);
    assert!(s.editing_custom());
    s.handle_key(&key(KeyCode::Char(' ')), 0);
    assert_eq!(s.handle_key(&key(KeyCode::Enter), 0), None);
    assert!(!s.editing_custom());
    assert_eq!(s.answers()[0], None);
}

#[test]
fn esc_cancels_and_tabs_wrap() {
    let mut s = AskUserState::new(vec![q("A?", &["x"]), q("B?", &["y"])]);
    s.handle_key(&key(KeyCode::Left), 0);
    assert_eq!(s.current_tab(), 2);
    s.handle_key(&key(KeyCode::Right), 0);
    assert_eq!(s.current_tab(), 0);
    let shift_tab = KeyEvent { code: KeyCode::Tab, ctrl: false, alt: false, shift: true, kind: KeyEventKind::Press };
    s.handle_key(&shift_tab, 0);
    assert_eq!(s.current_tab(), 2);
    assert_eq!(s.handle_key(&key(KeyCode::Esc), 0), Some("[User Cancelled]".to_string()));
}

#[test]
fn enter_right_after_paste_is_swallowed() {
    let mut s = AskUserState::new(vec![q("Q?", &["a"])]);
    s.handle_paste("x\ny", 1_000);
    assert_eq!(s.handle_key(&key(KeyCode::Enter), 1_050), None);
    assert_eq!(s.handle_key(&key(KeyCode::Enter), 1_060), Some("\"Q?\"=\"a\"".to_string()));
}

#[test]
fn paste_goes_into_free_text_without_newlines() {
    let mut s = AskUserState::new(vec![q("Q?", &[])]);
    s.handle_key(&key(KeyCode::Enter), 0);
    s.handle_paste("line1\r\nline2", 10);
    assert_eq!(s.custom_inputs()[0], "line1line2");
    assert_eq!(s.custom_cursor(), 10);
    assert!(s.cursor_in_field());
}

#[test]
fn pairs_are_read_from_a_reply() {
    let pairs = parse_ask_user_pairs("\"Which \\\"db\\\"?\"=\"pg\", \"Port?\" = \"Unanswered\"");
    assert_eq!(
        pairs,
        vec![
            ("Which \"db\"?".to_string(), "pg".to_string()),
            ("Port?".to_string(), "Unanswered".to_string())
        ]
    );
    assert!(parse_ask_user_pairs("[User Cancelled]").is_empty());
    assert_eq!(parse_ask_user_pairs("\"a\" x \"b\"=\"c\""), vec![("b".to_string(), "c".to_string())]);
    assert!(parse_ask_user_pairs("\"open=\"").is_empty());
    assert!(parse_ask_user_pairs("\"k\"=\"unterminated").is_empty());
}

#[test]
fn reply_reads_back_to_the_answers() {
    let qs = vec![q("Say \"hi\"?", &[]), q("Open?", &[]), q("Ünïcode?", &[])];
    let answers = vec![Some("\"yes\"".to_string()), None, Some("da, ja".to_string())];
    let reply = format_reply(&qs, &answers);
    assert_eq!(
        parse_ask_user_pairs(&reply),
        vec![
            ("Say \"hi\"?".to_string(), "\"yes\"".to_string()),
            ("Open?".to_string(), "Unanswered".to_string()),
            ("Ünïcode?".to_string(), "da, ja".to_string())
        ]
    );
}

#[test]
fn answered_rows_match_questions_to_reply() {
    let args = r#"{"questions":[{"question":"Color?"},{"question":"Size?"},{"header":"h"}]}"#;
    let rows = answered_questions(args, r#""Color?"="Blue", "Size?"="L""#).unwrap();
    assert_eq!(
        rows,
        vec![
            ("Color?".to_string(), "Blue".to_string()),
            ("Size?".to_string(), "L".to_string()),
            ("".to_string(), "Unanswered".to_string()),
        ]
    );
    let rows = answered_questions(args, r#""Size?"="M""#).unwrap();
    assert_eq!(rows[0].1, "Unanswered");
    assert_eq!(rows[1].1, "M");
    assert!(answered_questions(args, "[User Cancelled]").is_none());
    assert_eq!(answered_questions("{}", r#""a"="b""#).unwrap().len(), 0);
}

#[test]
fn submit_reports_answers_so_far() {
    let mut s = AskUserState::new(vec![q("A?", &["x", "y"]), q("B?", &["z"])]);
    assert_eq!(s.submit_and_finish(), "\"A?\"=\"Unanswered\", \"B?\"=\"Unanswered\"");
    assert!(s.handle_key(&key(KeyCode::Down), 0).is_none());
    assert!(s.handle_key(&key(KeyCode::Enter), 0).is_none());
    assert_eq!(s.submit_and_finish(), "\"A?\"=\"y\", \"B?\"=\"Unanswered\"");
}

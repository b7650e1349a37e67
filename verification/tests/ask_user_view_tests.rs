use hailux_tui::ask_user::{QuestionInfo, QuestionOption};
use hailux_tui::ask_user_view::{ask_user_view, TabState};
use hailux_tui::mcp_view::{DialogRect, LineTone};

fn question(header: &str, text: &str, opts: &[(&str, &str)]) -> QuestionInfo {
    QuestionInfo {
        header: header.to_string(),
        question: text.to_string(),
        options: opts
            .iter()
            .map(|(l, d)| QuestionOption { label: l.to_string(), description: d.to_string() })
            .collect(),
    }
}

fn texts(lines: &[hailux_tui::mcp_view::PanelLine]) -> Vec<String> {
    lines.iter().map(|l| l.text.clone()).collect()
}

#[test]
fn single_question_shows_options_and_help() {
    let qs = vec![question("Color", "Pick a color?", &[("Red", "Warm tone"), ("Blue", "Cool tone")])];
    let v = ask_user_view(100, 30, &qs, 0, 0, &[None], &[String::new()], 0, false);
    assert_eq!(v.dialog, DialogRect { x: 10, y: 10, width: 80, height: 10 });
    assert!(v.tabs.is_empty());
    assert_eq!(
        texts(&v.lines),
        vec![
            "Pick a color?",
            "▸ 1. Red",
            "     Warm tone",
            "  2. Blue",
            "     Cool tone",
            "  3. Type your own answer",
        ]
    );
    assert!(v.lines[1].selected && v.lines[2].selected && !v.lines[3].selected);
    assert_eq!(v.lines[2].tone, LineTone::Dim);
    let help = "↑↓=select  1-9=quick pick  enter=confirm  esc=cancel";
    assert_eq!(v.help, format!("{}{}", " ".repeat(13), help));
    assert_eq!(v.cursor, None);
}

#[test]
fn picked_option_is_marked() {
    let qs = vec![question("Color", "Pick a color?", &[("Red", "Warm tone"), ("Blue", "Cool tone")])];
    let v = ask_user_view(100, 30, &qs, 0, 0, &[Some("Blue".to_string())], &[String::new()], 0, false);
    assert_eq!(v.lines[3].text, "  2. Blue ✓");
    assert_eq!(v.lines[3].tone, LineTone::Picked);
    assert_eq!(v.lines[1].tone, LineTone::Plain);
}

#[test]
fn confirm_tab_lists_answers() {
    let qs = vec![
        question("Lang", "Which language?", &[("Rust", "fast")]),
        question("DB", "Which database?", &[("Postgres", "sql")]),
    ];
    let answers = vec![Some("Rust".to_string()), None];
    let v = ask_user_view(60, 20, &qs, 2, 0, &answers, &[String::new(), String::new()], 0, false);
    assert_eq!(v.dialog, DialogRect { x: 0, y: 6, width: 60, height: 7 });
    let tabs: Vec<(String, TabState)> = v.tabs.iter().map(|t| (t.text.clone(), t.state)).collect();
    assert_eq!(
        tabs,
        vec![
            (" Lang ".to_string(), TabState::Answered),
            ("  DB ".to_string(), TabState::Open),
            (" Confirm ".to_string(), TabState::Active),
        ]
    );
    assert_eq!(texts(&v.lines), vec![" Lang: Rust", " DB: (not answered)"]);
    assert_eq!(v.lines[0].tone, LineTone::Plain);
    assert_eq!(v.lines[1].tone, LineTone::Failed);
    assert_eq!(v.help, format!("{}enter=submit  esc=cancel", " ".repeat(17)));
}

#[test]
fn typing_an_answer_places_the_cursor() {
    let qs = vec![question("Ok", "Proceed?", &[("Yes", "go on")])];
    let v = ask_user_view(
        100,
        30,
        &qs,
        0,
        1,
        &[Some("my own".to_string())],
        &["my own".to_string()],
        6,
        true,
    );
    assert_eq!(v.dialog, DialogRect { x: 10, y: 10, width: 80, height: 9 });
    assert_eq!(
        texts(&v.lines),
        vec!["Proceed?", "  1. Yes", "     go on", "▸ 2. Type your own answer ✓", "   > my own|"]
    );
    assert_eq!(v.cursor, Some((22, 15)));
}

use hailux_tui::chat_input::{
    enter_intent, plan_paste, vertical_key, BracketPaste, EnterIntent, PasteAction,
};
use hailux_tui::command::{CommandEntry, CommandSuggestion};
use hailux_tui::input::InputHandler;
use hailux_tui::paste::{CharDecision, PasteBurst};

fn no_bracket() -> BracketPaste {
    BracketPaste { pending_start: false, at: None }
}

#[test]
fn empty_bracketed_paste_probes_for_image() {
    let plan = plan_paste("[200~[201~", 1000, no_bracket(), None, true);
    assert_eq!(plan.action, PasteAction::ProbeImage);
    assert_eq!(plan.text, "");
    assert!(plan.forget_cleared);
    assert_eq!(plan.bracket, no_bracket());
}

#[test]
fn split_markers_pair_up_within_a_second() {
    let first = plan_paste("[200~hello", 0, no_bracket(), None, false);
    assert_eq!(first.action, PasteAction::Text);
    assert_eq!(first.text, "hello");
    assert_eq!(first.bracket, BracketPaste { pending_start: true, at: Some(0) });
    let second = plan_paste("[201~", 500, first.bracket, None, false);
    assert_eq!(second.action, PasteAction::ProbeImage);
    assert_eq!(second.bracket, no_bracket());
    let stale = plan_paste("[201~", 2000, first.bracket, None, false);
    assert_eq!(stale.action, PasteAction::Nothing);
    assert_eq!(stale.bracket, no_bracket());
}

#[test]
fn marker_brings_back_recently_cleared_input() {
    let plan = plan_paste("[200~x", 400, no_bracket(), Some(100), false);
    assert!(plan.restore_cleared && plan.forget_cleared);
    let plan = plan_paste("[200~x", 700, no_bracket(), Some(100), false);
    assert!(!plan.restore_cleared && plan.forget_cleared);
    let plan = plan_paste("plain", 400, no_bracket(), Some(100), false);
    assert!(!plan.restore_cleared && !plan.forget_cleared);
}

#[test]
fn paste_kinds() {
    let plan = plan_paste("a\r\nb\rc", 0, no_bracket(), None, false);
    assert_eq!(plan.text, "a\nb\nc");
    assert_eq!(plan.action, PasteAction::Text);
    let long = "x".repeat(201);
    assert_eq!(plan_paste(&long, 0, no_bracket(), None, false).action, PasteAction::Placeholder);
    let at_limit = "x".repeat(200);
    assert_eq!(plan_paste(&at_limit, 0, no_bracket(), None, false).action, PasteAction::Text);
    let img = plan_paste("\"C:\\pics\\a.png\"", 0, no_bracket(), None, true);
    assert_eq!(img.action, PasteAction::ImagePath);
    assert_eq!(img.image_path.as_deref(), Some("C:\\pics\\a.png"));
    assert_eq!(plan_paste("", 0, no_bracket(), None, false).action, PasteAction::Nothing);
}

fn entry(name: &str) -> CommandEntry {
    CommandEntry { name: name.to_string(), description: String::new(), is_ui: true }
}

#[test]
fn up_and_down_move_through_suggestions_then_history() {
    let mut input = InputHandler::new();
    input.submit("first");
    let mut sugg = CommandSuggestion { show: true, items: vec![entry("a"), entry("b")], selected: 0 };
    vertical_key(false, &mut sugg, &mut input);
    assert_eq!(sugg.selected, 1);
    vertical_key(false, &mut sugg, &mut input);
    assert_eq!(sugg.selected, 1);
    vertical_key(true, &mut sugg, &mut input);
    assert_eq!(sugg.selected, 0);
    assert_eq!(input.text(), "");
    sugg.show = false;
    vertical_key(true, &mut sugg, &mut input);
    assert_eq!(input.text(), "first");
    vertical_key(false, &mut sugg, &mut input);
    assert_eq!(input.text(), "");
}

#[test]
fn enter_decisions() {
    let none = CommandSuggestion::new();
    let ready = CommandSuggestion { show: true, items: vec![entry("a")], selected: 0 };
    let mut burst = PasteBurst::new();
    assert_eq!(enter_intent(false, false, &none, &mut burst, 1000), EnterIntent::Submit);
    assert_eq!(
        enter_intent(false, true, &none, &mut burst, 1000),
        EnterIntent::InsertNewline { extend_window: false }
    );
    assert_eq!(enter_intent(true, false, &none, &mut burst, 1000), EnterIntent::PickFile);
    assert_eq!(enter_intent(false, false, &ready, &mut burst, 1000), EnterIntent::ApplySuggestion);
    // A character held back by the paste detector makes Enter part of the paste.
    assert_eq!(burst.on_plain_char('a', 2000), CharDecision::RetainFirstChar);
    assert_eq!(enter_intent(false, false, &ready, &mut burst, 2001), EnterIntent::FlushPasteFirst);
    assert_eq!(enter_intent(false, false, &none, &mut burst, 2001), EnterIntent::PasteNewline);
}

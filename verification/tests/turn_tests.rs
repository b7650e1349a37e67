use hailux_tui::chat_keys::ChatScroll;
use hailux_tui::input::InputHandler;
use hailux_tui::picker::FilePickerState;
use hailux_tui::timing::TimingStats;
use hailux_tui::transcript::{Message, Transcript};
use hailux_tui::turn::{begin_user_turn, title_of};

#[test]
fn sending_a_message_resets_the_chat_for_the_reply() {
    let mut input = InputHandler::new();
    input.set_text("fix the bug".to_string());
    let mut transcript = Transcript::new();
    let mut timing = TimingStats::new();
    timing.last_total_ms = Some(1200);
    let mut scroll = ChatScroll { offset: 7, auto_scroll: false };
    let mut pastes = vec![("[Pasted #1]".to_string(), "long text".to_string())];
    let mut picker = FilePickerState::new();
    picker.pending_mentions.push(("@a.rs".to_string(), "/w/a.rs".to_string()));
    let title = begin_user_turn(
        &mut input,
        &mut transcript,
        &mut timing,
        &mut scroll,
        &mut pastes,
        &mut picker,
        "fix the bug",
        true,
        true,
        5000,
    );
    assert_eq!(title.as_deref(), Some("fix the bug"));
    assert_eq!(input.text(), "");
    assert_eq!(timing.user_msg_sent_at, Some(5000));
    assert_eq!(timing.last_total_ms, None);
    assert_eq!(scroll, ChatScroll { offset: 0, auto_scroll: true });
    assert!(pastes.is_empty());
    assert!(picker.pending_mentions.is_empty());
    assert_eq!(transcript.len(), 1);
    match &transcript.messages()[0] {
        Message::User { text, plan_mode } => {
            assert_eq!(text, "fix the bug");
            assert!(*plan_mode);
        }
        _ => panic!("expected a user message"),
    }
    // The sent text is in the input's history.
    input.history_prev();
    assert_eq!(input.text(), "fix the bug");
}

#[test]
fn later_messages_do_not_retitle_the_session() {
    let mut input = InputHandler::new();
    let mut transcript = Transcript::new();
    let mut timing = TimingStats::new();
    let mut scroll = ChatScroll { offset: 0, auto_scroll: true };
    let mut pastes: Vec<(String, String)> = Vec::new();
    let mut picker = FilePickerState::new();
    let title = begin_user_turn(
        &mut input,
        &mut transcript,
        &mut timing,
        &mut scroll,
        &mut pastes,
        &mut picker,
        "again",
        false,
        false,
        10,
    );
    assert!(title.is_none());
}

#[test]
fn session_title_keeps_first_fifty_characters() {
    let long: String = "字".repeat(60);
    assert_eq!(title_of(&long), "字".repeat(50));
    assert_eq!(title_of("short"), "short");
    assert_eq!(title_of(""), "");
}

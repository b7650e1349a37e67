use hailux_tui::input::{ElementKind, InputHandler};

#[test]
fn insert_moves_cursor_past_text_in_bytes() {
    let mut h = InputHandler::new();
    assert!(h.is_empty());
    h.insert_str("héllo");
    assert_eq!(h.text(), "héllo");
    assert_eq!(h.cursor(), 6);
    assert_eq!(h.text_before_cursor(), "héllo");
    h.move_left();
    h.move_left();
    assert_eq!(h.cursor(), 4);
    h.insert_str("X");
    assert_eq!(h.text(), "hélXlo");
    assert_eq!(h.text_before_cursor(), "hélX");
}

#[test]
fn delete_backward_and_forward_take_whole_characters() {
    let mut h = InputHandler::new();
    h.insert_str("a你b");
    h.move_left();
    assert_eq!(h.cursor(), 4);
    assert!(h.delete_backward());
    assert_eq!(h.text(), "ab");
    assert_eq!(h.cursor(), 1);
    assert!(h.delete_forward());
    assert_eq!(h.text(), "a");
    assert!(!h.delete_forward());
    h.move_to_start();
    assert!(!h.delete_backward());
}

#[test]
fn delete_backward_undoes_typed_text() {
    let mut h = InputHandler::new();
    h.insert_str("ab");
    h.move_left();
    h.insert_str("é");
    assert_eq!(h.text(), "aéb");
    assert!(h.delete_backward());
    assert_eq!(h.text(), "ab");
    assert_eq!(h.cursor(), 1);
}

#[test]
fn elements_are_deleted_and_skipped_as_a_whole() {
    let mut h = InputHandler::new();
    h.insert_str("see ");
    h.insert_element("[Pasted 300 chars]", ElementKind::Paste);
    h.insert_str(" ok");
    assert_eq!(h.text(), "see [Pasted 300 chars] ok");
    let info = h.element_info();
    assert_eq!(info.len(), 1);
    assert_eq!(info[0].0, 4..22);
    assert_eq!(info[0].1, ElementKind::Paste);

    // Moving left from just after the element jumps over it.
    h.set_cursor(22);
    h.move_left();
    assert_eq!(h.cursor(), 4);
    h.move_right();
    assert_eq!(h.cursor(), 22);

    // Backspace right after it removes it entirely.
    assert!(h.delete_backward());
    assert_eq!(h.text(), "see  ok");
    assert_eq!(h.cursor(), 4);
    assert!(h.element_info().is_empty());
}

#[test]
fn set_cursor_inside_element_snaps_to_nearer_bound() {
    let mut h = InputHandler::new();
    h.insert_element("@src/main.rs", ElementKind::FileMention);
    h.insert_str(" x");
    h.set_cursor(3);
    assert_eq!(h.cursor(), 0);
    h.set_cursor(10);
    assert_eq!(h.cursor(), 12);
    h.set_cursor(100);
    assert_eq!(h.cursor(), 14);
}

#[test]
fn typing_inside_text_shifts_later_elements() {
    let mut h = InputHandler::new();
    h.insert_str("ab");
    h.insert_element("[img]", ElementKind::Paste);
    h.move_to_start();
    h.insert_str("xyz");
    assert_eq!(h.text(), "xyzab[img]");
    assert_eq!(h.element_info()[0].0, 5..10);
    assert_eq!(h.element_payloads(), vec!["[img]".to_string()]);
}

#[test]
fn removed_elements_lists_payloads_no_longer_present() {
    let mut h = InputHandler::new();
    h.insert_element("[A]", ElementKind::Paste);
    h.insert_element("[B]", ElementKind::Paste);
    let before = h.element_payloads();
    assert_eq!(before, vec!["[A]".to_string(), "[B]".to_string()]);
    assert!(h.delete_backward());
    assert_eq!(h.removed_elements(&before), vec!["[B]".to_string()]);
}

#[test]
fn drain_raw_removes_range_and_places_cursor() {
    let mut h = InputHandler::new();
    h.insert_str("hello world");
    h.drain_raw(5..11);
    assert_eq!(h.text(), "hello");
    assert_eq!(h.cursor(), 5);
    h.drain_raw(3..3);
    assert_eq!(h.text(), "hello");
}

#[test]
fn set_text_and_clear() {
    let mut h = InputHandler::new();
    h.insert_element("[x]", ElementKind::Paste);
    h.set_text("fresh".to_string());
    assert_eq!(h.text(), "fresh");
    assert_eq!(h.cursor(), 5);
    assert!(h.element_info().is_empty());
    h.clear();
    assert!(h.is_empty());
    assert_eq!(h.cursor(), 0);
}

#[test]
fn history_walks_back_and_restores_draft() {
    let mut h = InputHandler::new();
    h.submit("one");
    h.submit("two");
    assert!(h.is_empty());
    h.insert_str("draft");
    h.history_prev();
    assert_eq!(h.text(), "two");
    h.history_prev();
    assert_eq!(h.text(), "one");
    h.history_prev();
    assert_eq!(h.text(), "one");
    h.history_next();
    assert_eq!(h.text(), "two");
    h.history_next();
    assert_eq!(h.text(), "draft");
    h.history_next();
    assert_eq!(h.text(), "draft");
}

#[test]
fn submit_then_history_prev_gives_the_input_back() {
    let mut h = InputHandler::new();
    h.insert_str("ask me");
    h.submit("ask me");
    h.history_prev();
    assert_eq!(h.text(), "ask me");
    assert_eq!(h.cursor(), 6);
}

#[test]
fn reset_forgets_history() {
    let mut h = InputHandler::new();
    h.submit("old");
    h.set_input_scroll_row(3);
    h.reset();
    assert_eq!(h.input_scroll_row(), 0);
    h.history_prev();
    assert!(h.is_empty());
}

#[test]
fn visual_rows_follow_newlines() {
    let mut h = InputHandler::new();
    h.insert_str("abc\ndef");
    assert!(!h.cursor_on_first_visual_row());
    assert!(h.cursor_on_last_visual_row());
    h.move_cursor_up();
    assert_eq!(h.cursor(), 3);
    assert!(h.cursor_on_first_visual_row());
    assert!(!h.cursor_on_last_visual_row());
    h.move_cursor_down();
    assert_eq!(h.cursor(), 7);
}

#[test]
fn visual_rows_wrap_wide_characters() {
    let mut h = InputHandler::new();
    // Six columns minus the two of the prompt leave four per row.
    h.update_area_width(6);
    h.insert_str("你好你好");
    assert!(!h.cursor_on_first_visual_row());
    assert!(h.cursor_on_last_visual_row());
    h.move_cursor_up();
    assert!(h.cursor_on_first_visual_row());
    assert_eq!(h.cursor(), 6);
    h.move_cursor_down();
    assert_eq!(h.cursor(), 12);
}

#[test]
fn narrow_rows_keep_cursor_on_one_row_when_text_fits() {
    let mut h = InputHandler::new();
    h.insert_str("abcd");
    assert!(h.cursor_on_first_visual_row());
    assert!(h.cursor_on_last_visual_row());
    h.set_processing(true);
    assert!(h.cursor_on_first_visual_row());
}

#[test]
fn down_browses_from_last_line_of_multiline_input() {
    let mut h = InputHandler::new();
    h.update_area_width(7);
    h.set_text("abcd\nef".to_string());
    h.set_cursor(5);
    assert!(h.cursor_on_last_visual_row());
    h.set_cursor(2);
    assert!(!h.cursor_on_last_visual_row());
    // A wrapped last line: only its last screen row counts.
    h.set_text("ab\nabcdefgh".to_string());
    h.set_cursor(4);
    assert!(!h.cursor_on_last_visual_row());
    h.set_cursor(11);
    assert!(h.cursor_on_last_visual_row());
}

#[test]
fn left_then_right_returns_cursor_in_plain_text() {
    let mut h = InputHandler::new();
    h.insert_str("héllo");
    for _ in 0..3 {
        h.move_left();
    }
    let c = h.cursor();
    h.move_left();
    h.move_right();
    assert_eq!(h.cursor(), c);
}

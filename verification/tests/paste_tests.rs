use hailux_tui::paste::{
    bracket_marker_info, expand_file_mentions, expand_pending_pastes, forget_removed, next_image_placeholder,
    normalize_newlines,
    next_large_paste_placeholder, retro_start_index, suppress_probe_result, CharDecision,
    FlushResult, PasteBurst,
};
use std::time::{Duration, Instant};

fn millis(origin: Instant, t: Instant) -> u64 {
    t.duration_since(origin).as_millis() as u64
}

fn origin_before(now: Instant) -> Instant {
    now.checked_sub(Duration::from_secs(100)).unwrap()
}

#[test]
fn bracket_markers_start_and_end_fragments() {
    let (clean, start, end) = bracket_marker_info("[200~");
    assert_eq!((clean.as_str(), start, end), ("", true, false));
    let (clean, start, end) = bracket_marker_info("[201~");
    assert_eq!((clean.as_str(), start, end), ("", false, true));
}

#[test]
fn bracket_markers_empty_paste_single_flush() {
    let (clean, start, end) = bracket_marker_info("[200~[201~");
    assert_eq!((clean.as_str(), start, end), ("", true, true));
}

#[test]
fn bracket_markers_text_paste_stripped() {
    let (clean, start, end) = bracket_marker_info("[200~hello world[201~");
    assert_eq!((clean.as_str(), start, end), ("hello world", true, true));
    let (clean, start, end) = bracket_marker_info("[200~multi\nline[201~");
    assert_eq!((clean.as_str(), start, end), ("multi\nline", true, true));
}

#[test]
fn bracket_markers_plain_text_untouched() {
    let (clean, start, end) = bracket_marker_info("just some pasted text");
    assert_eq!(
        (clean.as_str(), start, end),
        ("just some pasted text", false, false)
    );
    let (clean, _, _) = bracket_marker_info("");
    assert_eq!(clean, "");
}

#[test]
fn suppress_probe_result_pairs_with_path_attach() {
    let now = Instant::now();
    let o = origin_before(now);
    let leak = now - Duration::from_millis(1500);
    let path = now - Duration::from_millis(1400);
    assert!(suppress_probe_result(
        Some(millis(o, leak)),
        Some(millis(o, path)),
        millis(o, now)
    ));
}

#[test]
fn suppress_probe_result_pairs_with_probe_after_path() {
    let now = Instant::now();
    let o = origin_before(now);
    let path = now - Duration::from_millis(300);
    let probe = now - Duration::from_millis(250);
    assert!(suppress_probe_result(
        Some(millis(o, probe)),
        Some(millis(o, path)),
        millis(o, now)
    ));
}

#[test]
fn suppress_probe_result_ignores_older_path_attach() {
    let now = Instant::now();
    let o = origin_before(now);
    let path = now - Duration::from_millis(2000);
    let leak = now - Duration::from_millis(1500);
    assert!(!suppress_probe_result(
        Some(millis(o, leak)),
        Some(millis(o, path)),
        millis(o, now)
    ));
}

#[test]
fn suppress_probe_result_expires_after_window() {
    let now = Instant::now();
    let o = origin_before(now);
    let leak = now - Duration::from_secs(12);
    let path = now - Duration::from_secs(11);
    assert!(!suppress_probe_result(
        Some(millis(o, leak)),
        Some(millis(o, path)),
        millis(o, now)
    ));
}

#[test]
fn suppress_probe_result_requires_both_timestamps() {
    let now = Instant::now();
    let o = origin_before(now);
    let t = now - Duration::from_millis(100);
    assert!(!suppress_probe_result(None, Some(millis(o, t)), millis(o, now)));
    assert!(!suppress_probe_result(Some(millis(o, t)), None, millis(o, now)));
    assert!(!suppress_probe_result(None, None, millis(o, now)));
}

#[test]
fn fast_typing_becomes_a_paste() {
    let mut b = PasteBurst::new();
    assert_eq!(b.on_plain_char('a', 1000), CharDecision::RetainFirstChar);
    assert!(b.is_active());
    assert_eq!(b.flush_timeout(), Some(8));
    assert_eq!(b.on_plain_char('b', 1003), CharDecision::BeginBufferFromPending);
    b.append_char_to_buffer('b', 1003);
    assert_eq!(b.on_plain_char('c', 1005), CharDecision::BufferAppend);
    b.append_char_to_buffer('c', 1005);
    assert!(b.append_newline_if_active(1006));
    assert!(b.newline_should_insert(1100));
    match b.flush_if_due(1007) {
        FlushResult::Nothing => {}
        _ => panic!("too early to flush"),
    }
    match b.flush_if_due(1020) {
        FlushResult::Paste(p) => assert_eq!(p, "abc\n"),
        _ => panic!("expected a paste"),
    }
    assert!(!b.is_active());
    assert!(b.newline_should_insert(1126));
    assert!(!b.newline_should_insert(1127));
}

#[test]
fn slow_typing_stays_typing() {
    let mut b = PasteBurst::new();
    assert_eq!(b.on_plain_char('x', 0), CharDecision::RetainFirstChar);
    match b.flush_if_due(100) {
        FlushResult::Typed(c) => assert_eq!(c, 'x'),
        _ => panic!("expected the typed character"),
    }
    assert!(!b.is_active());
    assert_eq!(b.flush_timeout(), None);
}

#[test]
fn modified_key_flushes_buffer_and_held_char() {
    let mut b = PasteBurst::with_idle_timeout(60);
    assert_eq!(b.on_plain_char('p', 0), CharDecision::RetainFirstChar);
    assert_eq!(b.flush_before_modified_input(), Some("p".to_string()));
    assert_eq!(b.flush_before_modified_input(), None);
    let (start, grabbed) = b.decide_begin_buffer(50, "héllo", 2);
    assert_eq!(start, 4);
    assert_eq!(grabbed, "lo");
    assert_eq!(b.flush_timeout(), Some(60));
    b.clear_after_explicit_paste();
    assert!(!b.is_active());
}

#[test]
fn retro_start_counts_characters() {
    assert_eq!(retro_start_index("abc", 0), 3);
    assert_eq!(retro_start_index("abc", 2), 1);
    assert_eq!(retro_start_index("abc", 5), 0);
    assert_eq!(retro_start_index("日本語", 1), 6);
}

#[test]
fn third_fast_char_starts_retro_buffer() {
    let mut b = PasteBurst::new();
    assert_eq!(b.on_plain_char('a', 0), CharDecision::RetainFirstChar);
    match b.flush_if_due(20) {
        FlushResult::Typed('a') => {}
        _ => panic!("expected a"),
    }
    assert_eq!(b.on_plain_char('b', 25), CharDecision::RetainFirstChar);
    match b.flush_if_due(34) {
        FlushResult::Typed('b') => {}
        _ => panic!("expected b"),
    }
    assert_eq!(
        b.on_plain_char('c', 40),
        CharDecision::RetainFirstChar
    );
}

#[test]
fn large_paste_placeholders_are_numbered() {
    let none: Vec<(String, String)> = Vec::new();
    assert_eq!(next_large_paste_placeholder(&none, 250), "[Pasted Content 250 chars]");
    let one = vec![(" [Pasted Content 250 chars] ".to_string(), "x".repeat(250))];
    assert_eq!(next_large_paste_placeholder(&one, 250), "[Pasted Content 250 chars] #2");
    assert_eq!(next_large_paste_placeholder(&one, 300), "[Pasted Content 300 chars]");
}

#[test]
fn pending_pastes_expand_in_place() {
    let pending = vec![
        (" [Pasted Content 3 chars] ".to_string(), "abc".to_string()),
        ("[B]".to_string(), "bee".to_string()),
    ];
    assert_eq!(
        expand_pending_pastes("x [Pasted Content 3 chars] y [B][B]", &pending),
        "xabcy beebee"
    );
    assert_eq!(expand_pending_pastes("plain", &[]), "plain");
}

#[test]
fn file_mentions_expand_to_absolute_paths() {
    let mentions = vec![("@src/a.rs".to_string(), "@/w/src/a.rs".to_string())];
    assert_eq!(
        expand_file_mentions("see @src/a.rs and @src/a.rs", &mentions),
        "see @/w/src/a.rs and @/w/src/a.rs "
    );
}

#[test]
fn image_placeholders_count_and_deduplicate() {
    assert_eq!(next_image_placeholder(&[]), "[Image 1]");
    assert_eq!(next_image_placeholder(&["[Image 1] ".to_string()]), "[Image 2]");
    // An image removed from the middle leaves a later number in use.
    assert_eq!(
        next_image_placeholder(&["[Image 2] ".to_string()]),
        "[Image 2] #2"
    );
}

#[test]
fn pasted_line_endings_become_newlines() {
    assert_eq!(normalize_newlines("a\r\nb\rc\n"), "a\nb\nc\n");
    assert_eq!(normalize_newlines("\r\r\n"), "\n\n");
}

#[test]
fn removed_elements_drop_their_pending_entries() {
    let mut pending = vec![
        (" [Pasted Content 300 chars] ".to_string(), "a".repeat(300)),
        (" [Pasted Content 250 chars] ".to_string(), "b".repeat(250)),
    ];
    forget_removed(&mut pending, &[" [Pasted Content 300 chars] ".to_string()]);
    assert_eq!(pending.len(), 1);
    assert_eq!(pending[0].0, " [Pasted Content 250 chars] ");
    forget_removed(&mut pending, &[]);
    assert_eq!(pending.len(), 1);
}

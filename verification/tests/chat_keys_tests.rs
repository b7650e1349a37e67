use hailux_tui::chat_keys::{shortcut, BusyKeys, ChatScroll, Shortcut};
use hailux_tui::keys::{KeyCode, KeyEvent, KeyEventKind};

fn ev(code: KeyCode, ctrl: bool, alt: bool, kind: KeyEventKind) -> KeyEvent {
    KeyEvent { code, ctrl, alt, shift: false, kind }
}

fn press(code: KeyCode) -> KeyEvent {
    ev(code, false, false, KeyEventKind::Press)
}

#[test]
fn control_shortcuts() {
    let p = KeyEventKind::Press;
    assert_eq!(shortcut(&ev(KeyCode::Char('c'), true, false, p), false, None, 0), Some(Shortcut::Quit));
    assert_eq!(shortcut(&ev(KeyCode::Char('d'), true, false, p), false, None, 0), Some(Shortcut::Quit));
    assert_eq!(
        shortcut(&ev(KeyCode::Char('x'), true, false, p), false, None, 0),
        Some(Shortcut::OpenSessionPicker)
    );
    assert_eq!(shortcut(&ev(KeyCode::Char('n'), true, false, p), false, None, 0), Some(Shortcut::NewSession));
    assert_eq!(
        shortcut(&ev(KeyCode::Char('m'), true, false, p), false, None, 0),
        Some(Shortcut::OpenModelPicker)
    );
    assert_eq!(
        shortcut(&ev(KeyCode::Char('\x16'), true, false, p), false, None, 0),
        Some(Shortcut::ProbeImage { interactive: true })
    );
    assert_eq!(
        shortcut(&ev(KeyCode::Char('v'), false, true, p), false, None, 0),
        Some(Shortcut::ProbeImage { interactive: true })
    );
    assert_eq!(shortcut(&ev(KeyCode::Char('V'), false, true, p), false, None, 0), None);
    assert_eq!(shortcut(&press(KeyCode::Char('c')), false, None, 0), None);
    assert_eq!(shortcut(&ev(KeyCode::Char('o'), true, false, p), false, None, 0), None);
}

#[test]
fn windows_paste_leak_is_probed_quietly_unless_just_pressed() {
    let leak = ev(KeyCode::Char('v'), true, false, KeyEventKind::Release);
    assert_eq!(
        shortcut(&leak, true, None, 1_000),
        Some(Shortcut::ProbeImage { interactive: false })
    );
    assert_eq!(shortcut(&leak, true, Some(800), 1_000), Some(Shortcut::Swallow));
    assert_eq!(
        shortcut(&leak, true, Some(700), 1_000),
        Some(Shortcut::ProbeImage { interactive: false })
    );
    // Elsewhere the release is an ordinary Ctrl+V.
    assert_eq!(
        shortcut(&leak, false, None, 1_000),
        Some(Shortcut::ProbeImage { interactive: true })
    );
}

#[test]
fn scrolling_saturates_and_resumes_following() {
    let mut s = ChatScroll::new();
    s.scroll_up(3);
    assert_eq!(s, ChatScroll { offset: 3, auto_scroll: false });
    s.scroll_down(2);
    assert_eq!(s, ChatScroll { offset: 1, auto_scroll: false });
    s.follow_output();
    assert_eq!(s.offset, 1);
    s.scroll_down(20);
    assert_eq!(s, ChatScroll { offset: 0, auto_scroll: true });
    s.offset = u16::MAX - 1;
    s.scroll_up(20);
    assert_eq!(s.offset, u16::MAX);
    s.auto_scroll = true;
    s.follow_output();
    assert_eq!(s.offset, 0);
}

fn busy() -> BusyKeys {
    BusyKeys {
        scroll: ChatScroll::new(),
        thinking_collapsed: true,
        last_esc_time: None,
        esc_hint_active: false,
    }
}

#[test]
fn double_esc_interrupts() {
    let mut b = busy();
    assert!(!b.handle_key(&press(KeyCode::Esc), 10_000));
    assert!(b.esc_hint_active);
    assert_eq!(b.last_esc_time, Some(10_000));
    assert!(b.handle_key(&press(KeyCode::Esc), 14_999));
    assert!(!b.esc_hint_active);
    assert_eq!(b.last_esc_time, None);
}

#[test]
fn late_second_esc_only_rearms() {
    let mut b = busy();
    b.handle_key(&press(KeyCode::Esc), 0);
    assert!(!b.handle_key(&press(KeyCode::Esc), 5_000));
    assert_eq!(b.last_esc_time, Some(5_000));
    assert!(b.esc_hint_active);
}

#[test]
fn busy_keys_scroll_and_fold() {
    let mut b = busy();
    b.handle_key(&press(KeyCode::PageUp), 0);
    b.handle_key(&press(KeyCode::Up), 0);
    assert_eq!(b.scroll, ChatScroll { offset: 23, auto_scroll: false });
    b.handle_key(&press(KeyCode::PageDown), 0);
    assert_eq!(b.scroll, ChatScroll { offset: 3, auto_scroll: false });
    b.handle_key(&press(KeyCode::Down), 0);
    assert_eq!(b.scroll, ChatScroll { offset: 0, auto_scroll: true });
    b.handle_key(&ev(KeyCode::Char('o'), true, false, KeyEventKind::Press), 0);
    assert!(!b.thinking_collapsed);
    b.handle_key(&press(KeyCode::Char('o')), 0);
    assert!(!b.thinking_collapsed);
}

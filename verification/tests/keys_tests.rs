use hailux_tui::keys::{is_ctrl_v_paste_leak, KeyCode, KeyEvent, KeyEventKind};

fn key(kind: KeyEventKind, code: KeyCode, ctrl: bool) -> KeyEvent {
    KeyEvent { code, ctrl, alt: false, shift: false, kind }
}

#[test]
fn detects_ctrl_v_release_leak() {
    assert!(is_ctrl_v_paste_leak(
        &key(KeyEventKind::Release, KeyCode::Char('v'), true),
        true
    ));
    assert!(is_ctrl_v_paste_leak(
        &key(KeyEventKind::Release, KeyCode::Char('V'), true),
        true
    ));
    assert!(is_ctrl_v_paste_leak(
        &key(KeyEventKind::Release, KeyCode::Char('\x16'), true),
        true
    ));
}

#[test]
fn rejects_non_leak_keys() {
    for windows in [true, false] {
        assert!(!is_ctrl_v_paste_leak(
            &key(KeyEventKind::Press, KeyCode::Char('v'), true),
            windows
        ));
        assert!(!is_ctrl_v_paste_leak(
            &key(KeyEventKind::Release, KeyCode::Char('v'), false),
            windows
        ));
        assert!(!is_ctrl_v_paste_leak(
            &key(KeyEventKind::Release, KeyCode::Char('c'), true),
            windows
        ));
        assert!(!is_ctrl_v_paste_leak(
            &key(KeyEventKind::Release, KeyCode::Enter, true),
            windows
        ));
    }
}

#[test]
fn leak_never_reported_off_windows() {
    assert!(!is_ctrl_v_paste_leak(
        &key(KeyEventKind::Release, KeyCode::Char('v'), true),
        false
    ));
}

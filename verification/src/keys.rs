//! Key events as plain values, and the one key rule that depends on the
//! platform.

use vstd::prelude::*;

verus! {

/// Which key was pressed.
#[derive(Debug, Clone, Copy, PartialEq, Eq, Structural)]
pub enum KeyCode {
    Up,
    Down,
    Left,
    Right,
    Enter,
    Esc,
    Backspace,
    Delete,
    Home,
    End,
    PageUp,
    PageDown,
    Tab,
    BackTab,
    Char(char),
    Other,
}

/// Whether the key went down, repeats, or went up.
#[derive(Debug, Clone, Copy, PartialEq, Eq, Structural)]
pub enum KeyEventKind {
    Press,
    Repeat,
    Release,
}

/// A key event: the key, which of Ctrl, Alt and Shift were held, and its kind.
#[derive(Debug, Clone, Copy, PartialEq, Eq, Structural)]
pub struct KeyEvent {
    pub code: KeyCode,
    pub ctrl: bool,
    pub alt: bool,
    pub shift: bool,
    pub kind: KeyEventKind,
}

/// The shape in which a Ctrl+V paste shows up on Windows Terminal when the
/// clipboard holds only an image: a lone release of Ctrl+V (`v`, `V` with
/// Shift, or the control character U+0016).
pub open spec fn is_paste_leak(key: KeyEvent) -> bool {
    &&& key.kind == KeyEventKind::Release
    &&& (key.code == KeyCode::Char('v') || key.code == KeyCode::Char('V') || key.code
        == KeyCode::Char('\x16'))
    &&& key.ctrl
}

/// Whether `key` is the Ctrl+V paste leak; only Windows produces it, so on
/// other platforms the answer is always no.
pub fn is_ctrl_v_paste_leak(key: &KeyEvent, windows: bool) -> (b: bool)
    ensures
        b == (windows && is_paste_leak(*key)),
{
    if !windows {
        return false;
    }
    let is_release = match key.kind {
        KeyEventKind::Release => true,
        _ => false,
    };
    let is_v = match key.code {
        KeyCode::Char(c) => c == 'v' || c == 'V' || c == '\x16',
        _ => false,
    };
    is_release && is_v && key.ctrl
}

/// Whether the terminal's key event reaches the application: presses and
/// repeats do, releases only as the Ctrl+V paste leak on Windows.
pub fn forwards_key(key: &KeyEvent, windows: bool) -> (b: bool)
    ensures
        b == (key.kind == KeyEventKind::Press || key.kind == KeyEventKind::Repeat || (windows
            && is_paste_leak(*key))),
{
    match key.kind {
        KeyEventKind::Press | KeyEventKind::Repeat => true,
        KeyEventKind::Release => is_ctrl_v_paste_leak(key, windows),
    }
}

} // verus!

//! Key decisions of the chat view that do not depend on the input box:
//! global shortcuts, scrolling the transcript, and the keys that work while
//! an answer is being generated (scrolling, and Esc twice to interrupt).
//! Instants are milliseconds on a monotonic clock the caller reads.

use vstd::prelude::*;

use crate::keys::{is_paste_leak, KeyCode, KeyEvent};
use crate::timing::{duration_since, since};

verus! {

/// A Ctrl+V press this recent (in milliseconds) makes the release that
/// follows it no paste leak.
pub const CTRL_V_DEDUP_MS: u64 = 300;

/// A second Esc within this many milliseconds of the first interrupts the
/// answer in progress.
pub const ESC_INTERRUPT_WINDOW_MS: u64 = 5000;

/// Lines scrolled by the arrow keys and the mouse wheel.
pub const SCROLL_LINES: u16 = 3;

/// Lines scrolled by Page Up and Page Down.
pub const PAGE_LINES: u16 = 20;

/// A key handled before the input box sees it.
#[derive(Debug, Clone, Copy, PartialEq, Eq, Structural)]
pub enum Shortcut {
    Quit,
    OpenSessionPicker,
    NewSession,
    OpenModelPicker,
    /// Look for an image on the clipboard; `interactive` asks to report
    /// when there is none.
    ProbeImage { interactive: bool },
    /// A Ctrl+V release right after its press: nothing to do.
    Swallow,
}

/// `c` is one of the ways a terminal reports the V of Ctrl+V.
pub open spec fn is_v_key(c: char) -> bool {
    c == 'v' || c == 'V' || c == '\x16'
}

/// The shortcut a key stands for, if any: the Windows paste leak (probed
/// quietly unless a Ctrl+V press came within `CTRL_V_DEDUP_MS`), Ctrl+C or
/// Ctrl+D to quit, Ctrl+X for the sessions, Ctrl+N for a new session,
/// Ctrl+M for the models, Ctrl+V or Alt+V to paste an image.
pub open spec fn shortcut_of(key: KeyEvent, windows: bool, last_ctrl_v_press: Option<u64>, now: u64) -> Option<Shortcut> {
    if windows && is_paste_leak(key) {
        let recent = match last_ctrl_v_press {
            Some(t) => since(now, t) < CTRL_V_DEDUP_MS,
            None => false,
        };
        if recent {
            Some(Shortcut::Swallow)
        } else {
            Some(Shortcut::ProbeImage { interactive: false })
        }
    } else if key.ctrl && (key.code == KeyCode::Char('c') || key.code == KeyCode::Char('d')) {
        Some(Shortcut::Quit)
    } else if key.ctrl && key.code == KeyCode::Char('x') {
        Some(Shortcut::OpenSessionPicker)
    } else if key.ctrl && key.code == KeyCode::Char('n') {
        Some(Shortcut::NewSession)
    } else if key.ctrl && key.code == KeyCode::Char('m') {
        Some(Shortcut::OpenModelPicker)
    } else if key.ctrl && (key.code matches KeyCode::Char(c) && is_v_key(c)) {
        Some(Shortcut::ProbeImage { interactive: true })
    } else if key.alt && (key.code == KeyCode::Char('v') || key.code == KeyCode::Char('\x16')) {
        Some(Shortcut::ProbeImage { interactive: true })
    } else {
        None
    }
}

/// The shortcut `key` stands for (see `shortcut_of`); `windows` says
/// whether the terminal runs on Windows, `last_ctrl_v_press` when Ctrl+V
/// was last pressed.
pub fn shortcut(key: &KeyEvent, windows: bool, last_ctrl_v_press: Option<u64>, now: u64) -> (r:
    Option<Shortcut>)
    ensures
        r == shortcut_of(*key, windows, last_ctrl_v_press, now),
{
    if crate::keys::is_ctrl_v_paste_leak(key, windows) {
        let recent = match last_ctrl_v_press {
            Some(t) => duration_since(now, t) < CTRL_V_DEDUP_MS,
            None => false,
        };
        if recent {
            return Some(Shortcut::Swallow);
        } else {
            return Some(Shortcut::ProbeImage { interactive: false });
        }
    }
    if key.ctrl {
        match key.code {
            KeyCode::Char(c) => {
                if c == 'c' || c == 'd' {
                    return Some(Shortcut::Quit);
                } else if c == 'x' {
                    return Some(Shortcut::OpenSessionPicker);
                } else if c == 'n' {
                    return Some(Shortcut::NewSession);
                } else if c == 'm' {
                    return Some(Shortcut::OpenModelPicker);
                } else if c == 'v' || c == 'V' || c == '\x16' {
                    return Some(Shortcut::ProbeImage { interactive: true });
                }
            },
            _ => {},
        }
    }
    if key.alt {
        match key.code {
            KeyCode::Char(c) => {
                if c == 'v' || c == '\x16' {
                    return Some(Shortcut::ProbeImage { interactive: true });
                }
            },
            _ => {},
        }
    }
    None
}

/// How far the transcript is scrolled back from the bottom, and whether it
/// follows new output.
#[derive(Debug, Clone, Copy, PartialEq, Eq, Structural)]
pub struct ChatScroll {
    pub offset: u16,
    pub auto_scroll: bool,
}

impl ChatScroll {
    /// Scrolled back by `n` lines (at most to `u16::MAX`); no longer following.
    pub open spec fn up_by(self, n: u16) -> ChatScroll {
        ChatScroll {
            offset: if self.offset + n > u16::MAX {
                u16::MAX
            } else {
                (self.offset + n) as u16
            },
            auto_scroll: false,
        }
    }

    /// Scrolled forward by `n` lines (at most to the bottom); following again
    /// once at the bottom.
    pub open spec fn down_by(self, n: u16) -> ChatScroll {
        let offset = if self.offset >= n {
            (self.offset - n) as u16
        } else {
            0u16
        };
        ChatScroll { offset, auto_scroll: if offset == 0 {
            true
        } else {
            self.auto_scroll
        } }
    }

    /// At the bottom, following output.
    pub fn new() -> (s: ChatScroll)
        ensures
            s == (ChatScroll { offset: 0, auto_scroll: true }),
    {
        ChatScroll { offset: 0, auto_scroll: true }
    }

    pub fn scroll_up(&mut self, n: u16)
        ensures
            *final(self) == old(self).up_by(n),
    {
        self.auto_scroll = false;
        self.offset = self.offset.saturating_add(n);
    }

    pub fn scroll_down(&mut self, n: u16)
        ensures
            *final(self) == old(self).down_by(n),
    {
        self.offset = self.offset.saturating_sub(n);
        if self.offset == 0 {
            self.auto_scroll = true;
        }
    }

    /// New output arrived: back to the bottom if following.
    pub fn follow_output(&mut self)
        ensures
            *final(self) == (if old(self).auto_scroll {
                ChatScroll { offset: 0, ..*old(self) }
            } else {
                *old(self)
            }),
    {
        if self.auto_scroll {
            self.offset = 0;
        }
    }
}

/// What the chat view keeps for the keys that work while an answer is
/// being generated.
#[derive(Debug, Clone, Copy, PartialEq, Eq, Structural)]
pub struct BusyKeys {
    pub scroll: ChatScroll,
    pub thinking_collapsed: bool,
    /// When Esc was pressed once, waiting for a second press.
    pub last_esc_time: Option<u64>,
    /// Whether the "press Esc again" hint shows.
    pub esc_hint_active: bool,
}

impl BusyKeys {
    /// Whether Esc at `now` is the second press within the window.
    pub open spec fn esc_confirms(self, now: u64) -> bool {
        match self.last_esc_time {
            Some(t) => since(now, t) < ESC_INTERRUPT_WINDOW_MS,
            None => false,
        }
    }

    /// The state after `key` at `now` while an answer is generated: Ctrl+O
    /// folds or unfolds reasoning, the arrows and page keys scroll, Esc
    /// arms the interrupt or (armed) fires it; other keys do nothing.
    pub open spec fn after_key(self, key: KeyEvent, now: u64) -> BusyKeys {
        match key.code {
            KeyCode::Char(c) => if c == 'o' && key.ctrl {
                BusyKeys { thinking_collapsed: !self.thinking_collapsed, ..self }
            } else {
                self
            },
            KeyCode::Up => BusyKeys { scroll: self.scroll.up_by(SCROLL_LINES), ..self },
            KeyCode::Down => BusyKeys { scroll: self.scroll.down_by(SCROLL_LINES), ..self },
            KeyCode::PageUp => BusyKeys { scroll: self.scroll.up_by(PAGE_LINES), ..self },
            KeyCode::PageDown => BusyKeys { scroll: self.scroll.down_by(PAGE_LINES), ..self },
            KeyCode::Esc => if self.esc_confirms(now) {
                BusyKeys { last_esc_time: None, esc_hint_active: false, ..self }
            } else {
                BusyKeys { last_esc_time: Some(now), esc_hint_active: true, ..self }
            },
            _ => self,
        }
    }

    /// Handles `key` at `now` while an answer is generated (see
    /// `after_key`); returns whether to interrupt the answer.
    pub fn handle_key(&mut self, key: &KeyEvent, now: u64) -> (interrupt: bool)
        ensures
            *final(self) == old(self).after_key(*key, now),
            interrupt == (key.code == KeyCode::Esc && old(self).esc_confirms(now)),
    {
        match key.code {
            KeyCode::Char(c) => {
                if c == 'o' && key.ctrl {
                    self.thinking_collapsed = !self.thinking_collapsed;
                }
                false
            },
            KeyCode::Up => {
                self.scroll.scroll_up(SCROLL_LINES);
                false
            },
            KeyCode::Down => {
                self.scroll.scroll_down(SCROLL_LINES);
                false
            },
            KeyCode::PageUp => {
                self.scroll.scroll_up(PAGE_LINES);
                false
            },
            KeyCode::PageDown => {
                self.scroll.scroll_down(PAGE_LINES);
                false
            },
            KeyCode::Esc => {
                let confirms = match self.last_esc_time {
                    Some(t) => duration_since(now, t) < ESC_INTERRUPT_WINDOW_MS,
                    None => false,
                };
                if confirms {
                    self.last_esc_time = None;
                    self.esc_hint_active = false;
                    true
                } else {
                    self.last_esc_time = Some(now);
                    self.esc_hint_active = true;
                    false
                }
            },
            _ => false,
        }
    }
}

/// Two presses of Esc within the window interrupt the answer; the first
/// only arms the interrupt and shows the hint.
pub proof fn law_double_esc_interrupts(b: BusyKeys, esc: KeyEvent, t1: u64, t2: u64)
    requires
        esc.code == KeyCode::Esc,
        !b.esc_confirms(t1),
        t1 <= t2,
        t2 - t1 < ESC_INTERRUPT_WINDOW_MS,
    ensures
        b.after_key(esc, t1).esc_hint_active,
        b.after_key(esc, t1).esc_confirms(t2),
        !b.after_key(esc, t1).after_key(esc, t2).esc_hint_active,
        b.after_key(esc, t1).after_key(esc, t2).last_esc_time is None,
{
}

/// Scrolling back and then forward by the same amount returns to the same
/// place, and reaching the bottom resumes following.
pub proof fn law_scroll_round_trip(s: ChatScroll, n: u16)
    requires
        s.offset + n <= u16::MAX,
    ensures
        s.up_by(n).down_by(n).offset == s.offset,
        s.up_by(n).down_by(n).auto_scroll == (s.offset == 0),
{
}

} // verus!

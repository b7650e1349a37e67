//! Decisions of the chat input line while no answer is streaming: what a
//! paste becomes (text, a placeholder for a long paste, an image path to
//! attach, or a clipboard image probe), what Enter does, and where Up and
//! Down go (the suggestion list, the history, or the cursor).
//! Instants are milliseconds on a monotonic clock the caller reads.

use vstd::prelude::*;

use crate::clipboard::{image_path_from_paste, pasted_image_path};
use crate::command::CommandSuggestion;
use crate::input::{InputHandler, InputView};
use crate::paste::{
    bracket_info, bracket_marker_info, normalize_newlines, time_ok, unix_newlines,
    PasteBurst, PasteBurstView, LARGE_PASTE_CHAR_THRESHOLD, PASTE_ENTER_SUPPRESS_WINDOW_MS,
};
use crate::picker::FilePickerState;
use crate::text::chars_of;
use crate::timing::{duration_since, since};

verus! {

// ===== Pastes =====

/// A bracketed-paste start marker older than this (in milliseconds) no
/// longer waits for its end marker.
pub const BRACKET_MARKER_TIMEOUT_MS: u64 = 1000;

/// An input cleared by Esc this recently (in milliseconds) before a paste
/// marker was cleared by the marker's own Esc byte, and comes back.
pub const ESC_RESTORE_WINDOW_MS: u64 = 500;

/// Whether a bracketed-paste start marker waits for its end, and since when.
#[derive(Debug, Clone, Copy, PartialEq, Eq, Structural)]
pub struct BracketPaste {
    pub pending_start: bool,
    pub at: Option<u64>,
}

/// What a paste becomes.
#[derive(Debug, Clone, Copy, PartialEq, Eq, Structural)]
pub enum PasteAction {
    /// An empty bracketed paste: the clipboard holds an image to probe for.
    ProbeImage,
    /// A long text: it goes in as a placeholder element and waits to be
    /// expanded on submit.
    Placeholder,
    /// The path of one image file: attach the file when it reads as an
    /// image, else insert the text.
    ImagePath,
    /// Insert the text.
    Text,
    /// Nothing to insert.
    Nothing,
}

/// The plan for a paste: the text without line-ending variants and paste
/// markers; whether an input cleared by Esc is forgotten, and whether it is
/// put back first; the marker state after; and what the text becomes.
#[derive(Debug, Clone)]
pub struct PastePlan {
    pub text: String,
    pub forget_cleared: bool,
    pub restore_cleared: bool,
    pub bracket: BracketPaste,
    pub action: PasteAction,
    /// The image path, for `PasteAction::ImagePath`.
    pub image_path: Option<String>,
}

/// What a cleaned paste text becomes when no marker pair decides.
pub open spec fn paste_kind(clean: Seq<char>, windows: bool) -> PasteAction {
    if clean.len() > LARGE_PASTE_CHAR_THRESHOLD {
        PasteAction::Placeholder
    } else if clean.len() > 0 {
        if pasted_image_path(clean, windows) is Some {
            PasteAction::ImagePath
        } else {
            PasteAction::Text
        }
    } else {
        PasteAction::Nothing
    }
}

/// The marker state once a stale start marker is dropped.
pub open spec fn fresh_bracket(b: BracketPaste, now: u64) -> BracketPaste {
    match b.at {
        Some(t) => if since(now, t) > BRACKET_MARKER_TIMEOUT_MS {
            BracketPaste { pending_start: false, at: None }
        } else {
            b
        },
        None => b,
    }
}

/// The plan for pasting `text` at `now` (see `PastePlan`): line endings
/// become `\n` and markers are removed; a start marker starts waiting; an
/// end marker after a waiting start ends the pair, and an empty pair means
/// an image on the clipboard; an input cleared by Esc within the restore
/// window comes back when a marker shows.
pub open spec fn plan_of_paste(
    text: Seq<char>,
    now: u64,
    b: BracketPaste,
    cleared_at: Option<u64>,
    windows: bool,
) -> (Seq<char>, bool, bool, BracketPaste, PasteAction) {
    let info = bracket_info(unix_newlines(text));
    let clean = info.0;
    let marker = info.1 || info.2;
    let restore = marker && (cleared_at matches Some(t) && since(now, t) < ESC_RESTORE_WINDOW_MS);
    let b1 = fresh_bracket(b, now);
    let b2 = if info.1 {
        BracketPaste { pending_start: true, at: Some(now) }
    } else {
        b1
    };
    if info.2 && b2.pending_start {
        let done = BracketPaste { pending_start: false, at: None };
        if clean.len() == 0 {
            (clean, marker, restore, done, PasteAction::ProbeImage)
        } else {
            (clean, marker, restore, done, paste_kind(clean, windows))
        }
    } else {
        (clean, marker, restore, b2, paste_kind(clean, windows))
    }
}

/// Plans a paste (see `plan_of_paste`); the image path of a pasted image
/// file comes with the plan.
pub fn plan_paste(
    text: &str,
    now: u64,
    bracket: BracketPaste,
    cleared_at: Option<u64>,
    windows: bool,
) -> (r: PastePlan)
    ensures
        (r.text@, r.forget_cleared, r.restore_cleared, r.bracket, r.action) == plan_of_paste(
            text@,
            now,
            bracket,
            cleared_at,
            windows,
        ),
        r.action == PasteAction::ImagePath ==> (r.image_path matches Some(p) && pasted_image_path(
            r.text@,
            windows,
        ) == Some(p@)),
        r.action != PasteAction::ImagePath ==> r.image_path is None,
{
    let normalized = normalize_newlines(text);
    let (clean, saw_start, saw_end) = bracket_marker_info(normalized.as_str());
    let marker = saw_start || saw_end;
    let restore = marker && match cleared_at {
        Some(t) => duration_since(now, t) < ESC_RESTORE_WINDOW_MS,
        None => false,
    };
    let b1 = match bracket.at {
        Some(t) => if duration_since(now, t) > BRACKET_MARKER_TIMEOUT_MS {
            BracketPaste { pending_start: false, at: None }
        } else {
            bracket
        },
        None => bracket,
    };
    let b2 = if saw_start {
        BracketPaste { pending_start: true, at: Some(now) }
    } else {
        b1
    };
    let n = chars_of(clean.as_str()).len();
    if saw_end && b2.pending_start && n == 0 {
        return PastePlan {
            text: clean,
            forget_cleared: marker,
            restore_cleared: restore,
            bracket: BracketPaste { pending_start: false, at: None },
            action: PasteAction::ProbeImage,
            image_path: None,
        };
    }
    let b3 = if saw_end && b2.pending_start {
        BracketPaste { pending_start: false, at: None }
    } else {
        b2
    };
    let (action, image_path) = if n > LARGE_PASTE_CHAR_THRESHOLD {
        (PasteAction::Placeholder, None)
    } else if n > 0 {
        match image_path_from_paste(clean.as_str(), windows) {
            Some(p) => (PasteAction::ImagePath, Some(p)),
            None => (PasteAction::Text, None),
        }
    } else {
        (PasteAction::Nothing, None)
    };
    PastePlan {
        text: clean,
        forget_cleared: marker,
        restore_cleared: restore,
        bracket: b3,
        action,
        image_path,
    }
}

// ===== Up and Down =====

impl CommandSuggestion {
    /// Whether Up and Down move through the suggestions.
    pub open spec fn navigable(&self) -> bool {
        self.show && self.items@.len() > 0
    }

    /// Moves the selection up, stopping at the first entry.
    pub fn select_up(&mut self)
        ensures
            final(self).show == old(self).show,
            final(self).items@ == old(self).items@,
            final(self).selected == (if old(self).selected > 0 {
                (old(self).selected - 1) as usize
            } else {
                old(self).selected
            }),
    {
        if self.selected > 0 {
            self.selected = self.selected - 1;
        }
    }

    /// Moves the selection down, stopping at the last entry.
    pub fn select_down(&mut self)
        ensures
            final(self).show == old(self).show,
            final(self).items@ == old(self).items@,
            final(self).selected == (if old(self).selected + 1 < old(self).items@.len() {
                (old(self).selected + 1) as usize
            } else {
                old(self).selected
            }),
    {
        if self.selected < self.items.len() && self.selected + 1 < self.items.len() {
            self.selected = self.selected + 1;
        }
    }
}

impl FilePickerState {
    /// Moves the selection up, stopping at the first result.
    pub fn select_up(&mut self)
        ensures
            final(self).active == old(self).active,
            final(self).results@ == old(self).results@,
            final(self).pending_mentions@ == old(self).pending_mentions@,
            final(self).cached == old(self).cached,
            final(self).selected == (if old(self).selected > 0 {
                (old(self).selected - 1) as usize
            } else {
                old(self).selected
            }),
    {
        if self.selected > 0 {
            self.selected = self.selected - 1;
        }
    }

    /// Moves the selection down, stopping at the last result.
    pub fn select_down(&mut self)
        ensures
            final(self).active == old(self).active,
            final(self).results@ == old(self).results@,
            final(self).pending_mentions@ == old(self).pending_mentions@,
            final(self).cached == old(self).cached,
            final(self).selected == (if old(self).selected + 1 < old(self).results@.len() {
                (old(self).selected + 1) as usize
            } else {
                old(self).selected
            }),
    {
        if self.selected < self.results.len() && self.selected + 1 < self.results.len() {
            self.selected = self.selected + 1;
        }
    }
}

/// Up (`up`) or Down in the input line: through the suggestions when they
/// show; else through the history from the first (last) visual row; else
/// the cursor moves a row.
pub fn vertical_key(up: bool, suggestion: &mut CommandSuggestion, input: &mut InputHandler)
    requires
        old(input).wf(),
    ensures
        final(input).wf(),
        final(suggestion).show == old(suggestion).show,
        final(suggestion).items@ == old(suggestion).items@,
        old(suggestion).navigable() ==> {
            &&& final(input)@ == old(input)@
            &&& final(suggestion).selected == if up {
                if old(suggestion).selected > 0 {
                    (old(suggestion).selected - 1) as usize
                } else {
                    old(suggestion).selected
                }
            } else {
                if old(suggestion).selected + 1 < old(suggestion).items@.len() {
                    (old(suggestion).selected + 1) as usize
                } else {
                    old(suggestion).selected
                }
            }
        },
        !old(suggestion).navigable() ==> {
            &&& final(suggestion).selected == old(suggestion).selected
            &&& final(input)@ == if up {
                if old(input)@.on_first_row() {
                    old(input)@.history_back()
                } else {
                    InputView { cursor: old(input)@.cursor_up(), ..old(input)@ }
                }
            } else {
                if old(input)@.on_last_row() {
                    old(input)@.history_forward()
                } else {
                    InputView { cursor: old(input)@.cursor_down(), ..old(input)@ }
                }
            }
        },
{
    if suggestion.show && suggestion.items.len() > 0 {
        if up {
            suggestion.select_up();
        } else {
            suggestion.select_down();
        }
    } else if up {
        if input.cursor_on_first_visual_row() {
            input.history_prev();
        } else {
            input.move_cursor_up();
        }
    } else {
        if input.cursor_on_last_visual_row() {
            input.history_next();
        } else {
            input.move_cursor_down();
        }
    }
}

// ===== Enter =====

/// What Enter does.
#[derive(Debug, Clone, Copy, PartialEq, Eq, Structural)]
pub enum EnterIntent {
    /// The paste being buffered must be flushed into the input first (and
    /// the suggestions refreshed); then Enter is decided again.
    FlushPasteFirst,
    /// The Enter went into the paste being buffered.
    PasteNewline,
    /// The picked file goes into the input as a mention.
    PickFile,
    /// A newline goes into the input; when `extend_window`, the paste
    /// window is extended to now.
    InsertNewline { extend_window: bool },
    /// The selected suggestion replaces the input.
    ApplySuggestion,
    /// The input is submitted.
    Submit,
}

/// Whether an Enter at `now` belongs to a paste (see
/// `PasteBurst::newline_should_insert`).
pub open spec fn paste_newline(b: PasteBurstView, now: u64) -> bool {
    b.is_active() || (b.burst_window_until matches Some(u) && now <= u)
}

/// What Enter does at `now`: with the file picker open, it goes into a
/// paste under way, picks the file unless a newline is wanted (Shift or
/// Alt held, `newline_modifier`, or the paste window open), and otherwise
/// acts as below. Without the picker, a paste under way is flushed first
/// while suggestions show; then Enter goes into a paste under way, inserts
/// a newline when wanted, applies a suggestion when they show, or submits.
pub open spec fn enter_intent_of(
    picker_active: bool,
    newline_modifier: bool,
    suggestions_show: bool,
    suggestion_ready: bool,
    b: PasteBurstView,
    now: u64,
) -> (EnterIntent, PasteBurstView) {
    let appended = PasteBurstView {
        buffer: b.buffer.push('\n'),
        burst_window_until: Some((now + PASTE_ENTER_SUPPRESS_WINDOW_MS) as u64),
        ..b
    };
    let want_newline = newline_modifier || paste_newline(b, now);
    if !picker_active && suggestions_show && b.is_active() {
        (EnterIntent::FlushPasteFirst, b)
    } else if b.is_active() {
        (EnterIntent::PasteNewline, appended)
    } else if picker_active && !want_newline {
        (EnterIntent::PickFile, b)
    } else if want_newline {
        (EnterIntent::InsertNewline { extend_window: paste_newline(b, now) }, b)
    } else if suggestion_ready {
        (EnterIntent::ApplySuggestion, b)
    } else {
        (EnterIntent::Submit, b)
    }
}

/// Decides what Enter does (see `enter_intent_of`); a newline that goes
/// into the paste under way is added to it here.
pub fn enter_intent(
    picker_active: bool,
    newline_modifier: bool,
    suggestion: &CommandSuggestion,
    burst: &mut PasteBurst,
    now: u64,
) -> (r: EnterIntent)
    requires
        time_ok(now),
    ensures
        (r, final(burst)@) == enter_intent_of(
            picker_active,
            newline_modifier,
            suggestion.show,
            suggestion.navigable(),
            old(burst)@,
            now,
        ),
{
    if !picker_active && suggestion.show && burst.is_active() {
        return EnterIntent::FlushPasteFirst;
    }
    if burst.append_newline_if_active(now) {
        return EnterIntent::PasteNewline;
    }
    let in_paste = burst.newline_should_insert(now);
    let want_newline = newline_modifier || in_paste;
    if picker_active && !want_newline {
        EnterIntent::PickFile
    } else if want_newline {
        EnterIntent::InsertNewline { extend_window: in_paste }
    } else if suggestion.show && suggestion.items.len() > 0 {
        EnterIntent::ApplySuggestion
    } else {
        EnterIntent::Submit
    }
}

} // verus!

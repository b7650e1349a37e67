//! The session picker: searching the saved sessions, moving through the
//! matches, and the date and time labels of the list.

use vstd::prelude::*;

use crate::keys::{KeyCode, KeyEvent};
use crate::picker::{lowercase, to_lowercase};
use crate::text::{
    byte_slice, chars_contain, chars_of, contains_seq, get_byte_range, push_char, str_eq,
};

verus! {

/// A saved session as the picker lists it.
#[derive(Debug, Clone)]
pub struct SessionSummary {
    pub id: String,
    pub title: String,
    pub model: String,
    pub updated_at: String,
}

/// Whether session `s` matches the query: its lower-case title or model
/// contains the lower-case query.
pub open spec fn session_matches(s: SessionSummary, query: Seq<char>) -> bool {
    contains_seq(lowercase(s.title@), lowercase(query)) || contains_seq(
        lowercase(s.model@),
        lowercase(query),
    )
}

/// Indices of the sessions among the first `n` that match `query` (all of
/// them for an empty query), in order.
pub open spec fn matching_upto(sessions: Seq<SessionSummary>, query: Seq<char>, n: int) -> Seq<
    usize,
>
    decreases n,
{
    if n <= 0 {
        Seq::empty()
    } else {
        let rest = matching_upto(sessions, query, n - 1);
        if query.len() == 0 || session_matches(sessions[n - 1], query) {
            rest.push((n - 1) as usize)
        } else {
            rest
        }
    }
}

pub open spec fn matching(sessions: Seq<SessionSummary>, query: Seq<char>) -> Seq<usize> {
    matching_upto(sessions, query, sessions.len() as int)
}

proof fn lemma_matching_bounds(sessions: Seq<SessionSummary>, query: Seq<char>, n: int)
    requires
        0 <= n <= sessions.len(),
    ensures
        matching_upto(sessions, query, n).len() <= n,
        forall|i: int|
            0 <= i < matching_upto(sessions, query, n).len() ==> #[trigger] matching_upto(
                sessions,
                query,
                n,
            )[i] < n,
    decreases n,
{
    if n > 0 {
        lemma_matching_bounds(sessions, query, n - 1);
    }
}

/// The sessions matching `query`, as indices (see `matching`).
pub fn filter_sessions(sessions: &[SessionSummary], query: &str) -> (r: Vec<usize>)
    ensures
        r@ == matching(sessions@, query@),
        forall|i: int| 0 <= i < r@.len() ==> #[trigger] r@[i] < sessions@.len(),
{
    let empty = query.is_empty();
    let q = chars_of(to_lowercase(query).as_str());
    let mut r: Vec<usize> = Vec::new();
    let mut i: usize = 0;
    while i < sessions.len()
        invariant
            i <= sessions@.len(),
            empty == (query@.len() == 0),
            q@ == lowercase(query@),
            r@ == matching_upto(sessions@, query@, i as int),
        decreases sessions@.len() - i,
    {
        let keep = if empty {
            true
        } else {
            let s = &sessions[i];
            chars_contain(&chars_of(to_lowercase(s.title.as_str()).as_str()), &q) || chars_contain(
                &chars_of(to_lowercase(s.model.as_str()).as_str()),
                &q,
            )
        };
        if keep {
            r.push(i);
        }
        i = i + 1;
    }
    proof {
        lemma_matching_bounds(sessions@, query@, sessions@.len() as int);
    }
    r
}

/// What a key asks of the picker's owner.
#[derive(Debug, Clone, Copy, PartialEq, Eq, Structural)]
pub enum PickerAction {
    Nothing,
    Close,
    /// Switch to the session at this index of the list.
    Switch(usize),
    NewSession,
    /// Delete the session at this index of the list; the owner then lists
    /// the sessions again and calls `after_reload`.
    Delete(usize),
}

/// The picker's state: the search text, the matching sessions and the
/// selected row among them.
pub struct SessionPickerState {
    pub selected_index: usize,
    pub search_query: String,
    pub filtered_indices: Vec<usize>,
}

/// The session shown at the selected row, if there is one.
pub open spec fn selected_session(p: SessionPickerState, n: int) -> Option<usize> {
    let f = p.filtered_indices@;
    if p.selected_index < f.len() && f[p.selected_index as int] < n {
        Some(f[p.selected_index as int])
    } else {
        None
    }
}

impl SessionPickerState {
    /// A picker over `sessions` with an empty search, the first row selected.
    pub fn new(sessions: &[SessionSummary]) -> (p: SessionPickerState)
        ensures
            p.selected_index == 0,
            p.search_query@ == Seq::<char>::empty(),
            p.filtered_indices@ == matching(sessions@, Seq::<char>::empty()),
    {
        let q = String::new();
        let f = filter_sessions(sessions, q.as_str());
        SessionPickerState { selected_index: 0, search_query: q, filtered_indices: f }
    }

    /// Handles a key: with Ctrl, N asks for a new session and D for deleting
    /// the selected one; Esc closes; the arrows move within the matches;
    /// Enter switches to the selected session; Backspace and typed
    /// characters edit the search, which filters again and selects the
    /// first row.
    pub fn handle_key(&mut self, key: &KeyEvent, sessions: &[SessionSummary]) -> (a:
        PickerAction)
        ensures
            key.ctrl ==> final(self).selected_index == old(self).selected_index
                && final(self).search_query@ == old(self).search_query@
                && final(self).filtered_indices@ == old(self).filtered_indices@,
            key.ctrl ==> a == (if key.code == KeyCode::Char('n') {
                PickerAction::NewSession
            } else if key.code == KeyCode::Char('d') && selected_session(
                *old(self),
                sessions@.len() as int,
            ) is Some {
                PickerAction::Delete(selected_session(*old(self), sessions@.len() as int)->0)
            } else {
                PickerAction::Nothing
            }),
            !key.ctrl ==> match key.code {
                KeyCode::Esc => a == PickerAction::Close && final(self)@ == old(self)@,
                KeyCode::Up => a == PickerAction::Nothing && final(self).selected_index == (if old(
                    self,
                ).selected_index > 0 {
                    old(self).selected_index - 1
                } else {
                    old(self).selected_index as int
                }) && final(self).search_query@ == old(self).search_query@
                    && final(self).filtered_indices@ == old(self).filtered_indices@,
                KeyCode::Down => a == PickerAction::Nothing && final(self).selected_index == (if old(
                    self,
                ).selected_index + 1 < old(self).filtered_indices@.len() {
                    old(self).selected_index + 1
                } else {
                    old(self).selected_index as int
                }) && final(self).search_query@ == old(self).search_query@
                    && final(self).filtered_indices@ == old(self).filtered_indices@,
                KeyCode::Enter => final(self)@ == old(self)@ && a == (match selected_session(
                    *old(self),
                    sessions@.len() as int,
                ) {
                    Some(i) => PickerAction::Switch(i),
                    None => PickerAction::Nothing,
                }),
                KeyCode::Backspace => a == PickerAction::Nothing && if old(
                    self,
                ).search_query@.len() > 0 {
                    &&& final(self).search_query@ == old(self).search_query@.drop_last()
                    &&& final(self).filtered_indices@ == matching(
                        sessions@,
                        final(self).search_query@,
                    )
                    &&& final(self).selected_index == 0
                } else {
                    final(self)@ == old(self)@
                },
                KeyCode::Char(c) => a == PickerAction::Nothing && final(self).search_query@ == old(
                    self,
                ).search_query@.push(c) && final(self).filtered_indices@ == matching(
                    sessions@,
                    final(self).search_query@,
                ) && final(self).selected_index == 0,
                _ => a == PickerAction::Nothing && final(self)@ == old(self)@,
            },
    {
        let n = self.filtered_indices.len();
        if key.ctrl {
            match key.code {
                KeyCode::Char(c) => {
                    if c == 'n' {
                        return PickerAction::NewSession;
                    }
                    if c == 'd' && self.selected_index < n {
                        let idx = self.filtered_indices[self.selected_index];
                        if idx < sessions.len() {
                            return PickerAction::Delete(idx);
                        }
                    }
                    return PickerAction::Nothing;
                },
                _ => {
                    return PickerAction::Nothing;
                },
            }
        }
        match key.code {
            KeyCode::Esc => PickerAction::Close,
            KeyCode::Up => {
                if self.selected_index > 0 {
                    self.selected_index = self.selected_index - 1;
                }
                PickerAction::Nothing
            },
            KeyCode::Down => {
                if n > 0 && self.selected_index < n - 1 {
                    self.selected_index = self.selected_index + 1;
                }
                PickerAction::Nothing
            },
            KeyCode::Enter => {
                if self.selected_index < n {
                    let idx = self.filtered_indices[self.selected_index];
                    if idx < sessions.len() {
                        return PickerAction::Switch(idx);
                    }
                }
                PickerAction::Nothing
            },
            KeyCode::Backspace => {
                if !self.search_query.as_str().is_empty() {
                    let v = chars_of(self.search_query.as_str());
                    let kept = crate::text::sub_chars(&v, 0, v.len() - 1);
                    proof {
                        assert(kept@ =~= old(self).search_query@.drop_last());
                    }
                    self.search_query = crate::text::string_of(&kept);
                    self.filtered_indices = filter_sessions(sessions, self.search_query.as_str());
                    self.selected_index = 0;
                }
                PickerAction::Nothing
            },
            KeyCode::Char(c) => {
                push_char(&mut self.search_query, c);
                self.filtered_indices = filter_sessions(sessions, self.search_query.as_str());
                self.selected_index = 0;
                PickerAction::Nothing
            },
            _ => PickerAction::Nothing,
        }
    }

    /// After a deletion the owner lists the sessions again: the matches are
    /// found anew and the selection moves up one row if it fell off the end.
    pub fn after_reload(&mut self, sessions: &[SessionSummary])
        ensures
            final(self).search_query@ == old(self).search_query@,
            final(self).filtered_indices@ == matching(sessions@, old(self).search_query@),
            final(self).selected_index == (if old(self).selected_index
                >= final(self).filtered_indices@.len() && old(self).selected_index > 0 {
                old(self).selected_index - 1
            } else {
                old(self).selected_index as int
            }),
    {
        self.filtered_indices = filter_sessions(sessions, self.search_query.as_str());
        if self.selected_index >= self.filtered_indices.len() && self.selected_index > 0 {
            self.selected_index = self.selected_index - 1;
        }
    }
}

/// The picker's state as plain values.
pub struct SessionPickerView {
    pub selected_index: usize,
    pub search_query: Seq<char>,
    pub filtered_indices: Seq<usize>,
}

impl View for SessionPickerState {
    type V = SessionPickerView;

    open spec fn view(&self) -> SessionPickerView {
        SessionPickerView {
            selected_index: self.selected_index,
            search_query: self.search_query@,
            filtered_indices: self.filtered_indices@,
        }
    }
}

// ===== Labels of the list =====

/// The date group of a session updated at `iso` (an ISO 8601 time): "Today"
/// when its date (the first ten bytes, or today's date when those are no
/// whole characters) is `today`, else that date.
pub open spec fn date_category(iso: Seq<char>, today: Seq<char>) -> Seq<char> {
    let d = match byte_slice(iso, 0, 10) {
        Some(t) => t,
        None => today,
    };
    if d == today {
        "Today"@
    } else {
        d
    }
}

/// The date group of a session (see `date_category`); `today` is the
/// current local date as `YYYY-MM-DD`.
pub fn format_date_category(iso: &str, today: &str) -> (r: String)
    ensures
        r@ == date_category(iso@, today@),
{
    let d = match get_byte_range(iso, 0, 10) {
        Some(t) => t,
        None => today.to_owned(),
    };
    if str_eq(d.as_str(), today) {
        "Today".to_owned()
    } else {
        d
    }
}

/// The `HH:MM` part of an ISO 8601 time (bytes 11 to 16), or `--:--`.
pub open spec fn time_short(iso: Seq<char>) -> Seq<char> {
    match byte_slice(iso, 11, 16) {
        Some(t) => t,
        None => "--:--"@,
    }
}

pub fn format_time_short(iso: &str) -> (r: String)
    ensures
        r@ == time_short(iso@),
{
    match get_byte_range(iso, 11, 16) {
        Some(t) => t,
        None => "--:--".to_owned(),
    }
}

} // verus!

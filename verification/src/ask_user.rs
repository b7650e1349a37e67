//! The ask-user dialog: the agent asks one or more questions, each with
//! options and a free-text answer; with several questions a last tab
//! confirms. The dialog ends with the reply the agent receives.
//! Instants are milliseconds on a monotonic clock the caller reads.

use vstd::prelude::*;

use crate::keys::{KeyCode, KeyEvent};
use crate::line_edit::{lemma_len_le_blen, single_line, strip_line_breaks};
use crate::model_picker::lemma_single_line_blen;
use crate::text::{
    blen, boundary_index, byte_at, byte_len, byte_offset, char_len, char_len_of, chars_of,
    chars_eq, chars_replace, contains_seq, extend_chars, str_contains, index_of_boundary,
    is_boundary, lemma_byte_at_strict, lemma_byte_at_total, replace_all, splice_chars,
    string_of, trim, trim_chars,
};
use crate::json_args::{
    json_array_len, json_array_member_len, json_item_str_field, json_item_str_member, opt_view,
    or_else, or_else_string,
};
use crate::timing::{duration_since, since};

verus! {

/// An Enter this soon (in milliseconds) after a paste is taken as part of
/// the paste and only ends the suppression.
pub const PASTE_ENTER_SUPPRESS_MS: u64 = 120;

/// One option of a question.
#[derive(Debug, Clone)]
pub struct QuestionOption {
    pub label: String,
    pub description: String,
}

/// A question put to the user.
#[derive(Debug, Clone)]
pub struct QuestionInfo {
    pub header: String,
    pub question: String,
    pub options: Vec<QuestionOption>,
}

/// The reply sent when the user closes the dialog.
pub open spec fn cancel_reply() -> Seq<char> {
    "[User Cancelled]"@
}

/// `s` with its double quotes escaped.
pub open spec fn escaped(s: Seq<char>) -> Seq<char> {
    replace_all(s, "\""@, "\\\""@)
}

/// `"question"="answer"` for one question, `Unanswered` standing for a
/// missing answer.
pub open spec fn answer_pair(q: QuestionInfo, a: Option<Seq<char>>) -> Seq<char> {
    let ans = match a {
        Some(t) => t,
        None => "Unanswered"@,
    };
    "\""@ + escaped(q.question@) + "\"=\""@ + escaped(ans) + "\""@
}

/// The pairs of the first `n` questions, joined by `, `.
pub open spec fn reply_upto(qs: Seq<QuestionInfo>, answers: Seq<Option<Seq<char>>>, n: int) -> Seq<
    char,
>
    decreases n,
{
    if n <= 0 {
        Seq::empty()
    } else if n == 1 {
        answer_pair(qs[0], answers[0])
    } else {
        reply_upto(qs, answers, n - 1) + ", "@ + answer_pair(qs[n - 1], answers[n - 1])
    }
}

/// The reply for all questions.
pub open spec fn reply_text(qs: Seq<QuestionInfo>, answers: Seq<Option<Seq<char>>>) -> Seq<char> {
    reply_upto(qs, answers, qs.len() as int)
}

/// The dialog as plain values. `cursor` is a byte offset into the free-text
/// answer of the current tab.
pub struct AskView {
    pub questions: Seq<QuestionInfo>,
    pub current_tab: int,
    pub selected: int,
    pub answers: Seq<Option<Seq<char>>>,
    pub inputs: Seq<Seq<char>>,
    pub cursor: int,
    pub editing: bool,
    pub last_paste: Option<u64>,
}

impl AskView {
    pub open spec fn n(self) -> int {
        self.questions.len() as int
    }

    pub open spec fn single(self) -> bool {
        self.n() == 1
    }

    /// Number of tabs: one per question, and a confirm tab when there are
    /// several (or none).
    pub open spec fn tabs(self) -> int {
        if self.single() {
            1
        } else {
            self.n() + 1
        }
    }

    pub open spec fn on_confirm(self) -> bool {
        !self.single() && self.current_tab == self.n()
    }

    /// Rows of the current question: its options and the free-text row.
    pub open spec fn rows(self) -> int {
        self.questions[self.current_tab].options.len() + 1
    }

    pub open spec fn wf(self) -> bool {
        &&& self.answers.len() == self.n()
        &&& self.inputs.len() == self.n()
        &&& 0 <= self.current_tab < self.tabs()
        &&& 0 <= self.selected
        &&& !self.on_confirm() ==> self.selected < self.rows()
        &&& self.cursor >= 0
        &&& self.n() < usize::MAX
        &&& forall|i: int|
            0 <= i < self.n() ==> #[trigger] self.questions[i].options.len() < usize::MAX
    }

    /// Whether the free-text answer is being typed.
    pub open spec fn typing(self) -> bool {
        self.editing && !self.on_confirm()
    }

    /// The free-text answer of the current tab.
    pub open spec fn field(self) -> Seq<char> {
        self.inputs[self.current_tab]
    }

    /// Whether the cursor sits on a character boundary of the field.
    pub open spec fn cursor_ok(self) -> bool {
        is_boundary(self.field(), self.cursor)
    }

    /// Keys that slice or insert at the cursor, which the dialog refuses
    /// (by panicking) when the cursor is not on a boundary of the field; a
    /// cursor kept from another tab can be off.
    pub open spec fn key_needs_cursor(self, key: KeyEvent) -> bool {
        match key.code {
            KeyCode::Left | KeyCode::Backspace => self.cursor > 0,
            KeyCode::Right | KeyCode::Delete => self.cursor < blen(self.field()),
            KeyCode::Char(_) => !key.ctrl,
            _ => false,
        }
    }

    /// The field and cursor after an editing key.
    pub open spec fn field_edited(self, key: KeyEvent) -> (Seq<char>, int) {
        let t = self.field();
        let k = boundary_index(t, self.cursor);
        match key.code {
            KeyCode::Backspace => if self.cursor > 0 {
                (t.remove(k - 1), byte_at(t, k - 1) as int)
            } else {
                (t, self.cursor)
            },
            KeyCode::Delete => if self.cursor < blen(t) {
                (t.remove(k), self.cursor)
            } else {
                (t, self.cursor)
            },
            KeyCode::Left => if self.cursor > 0 {
                (t, byte_at(t, k - 1) as int)
            } else {
                (t, self.cursor)
            },
            KeyCode::Right => if self.cursor < blen(t) {
                (t, byte_at(t, k + 1) as int)
            } else {
                (t, self.cursor)
            },
            KeyCode::Home => (t, 0),
            KeyCode::End => (t, blen(t) as int),
            KeyCode::Char(c) => if !key.ctrl {
                (t.insert(k, c), self.cursor + char_len(c))
            } else {
                (t, self.cursor)
            },
            _ => (t, self.cursor),
        }
    }

    /// The next tab after answering the current one: one on, the confirm
    /// tab at most.
    pub open spec fn next_tab(self) -> int {
        if self.current_tab + 1 > self.n() {
            self.n()
        } else {
            self.current_tab + 1
        }
    }

    /// Picking the selected row: an option answers the question (and ends
    /// the dialog when it is the only question, else moves on); the
    /// free-text row starts typing.
    pub open spec fn picked(self) -> (AskView, Option<Seq<char>>) {
        let opts = self.questions[self.current_tab].options;
        if self.selected < opts.len() {
            let answers = self.answers.update(self.current_tab, Some(opts[self.selected].label@));
            if self.single() {
                (AskView { answers, ..self }, Some(reply_text(self.questions, answers)))
            } else {
                (
                    AskView {
                        answers,
                        current_tab: self.next_tab(),
                        selected: 0,
                        editing: false,
                        ..self
                    },
                    None,
                )
            }
        } else {
            (AskView { editing: true, ..self }, None)
        }
    }

    /// A key while typing the free-text answer: Esc stops typing; Enter
    /// keeps the trimmed text as the answer (an empty one just stops
    /// typing) and moves on like picking an option; the other keys edit.
    pub open spec fn typed_key(self, key: KeyEvent) -> (AskView, Option<Seq<char>>) {
        match key.code {
            KeyCode::Esc => (AskView { editing: false, ..self }, None),
            KeyCode::Enter => {
                let text = trim(self.field());
                if text.len() == 0 {
                    (AskView { editing: false, ..self }, None)
                } else {
                    let inputs = self.inputs.update(self.current_tab, text);
                    let answers = self.answers.update(self.current_tab, Some(text));
                    if self.single() {
                        (
                            AskView { inputs, answers, ..self },
                            Some(reply_text(self.questions, answers)),
                        )
                    } else {
                        (
                            AskView {
                                inputs,
                                answers,
                                current_tab: self.next_tab(),
                                selected: 0,
                                editing: false,
                                cursor: 0,
                                ..self
                            },
                            None,
                        )
                    }
                }
            },
            _ => {
                let (t, c) = self.field_edited(key);
                (AskView { inputs: self.inputs.update(self.current_tab, t), cursor: c, ..self }, None)
            },
        }
    }

    /// Another tab (`tab`), with the first row selected and nothing typed.
    pub open spec fn at_tab(self, tab: int) -> AskView {
        AskView { current_tab: tab, selected: 0, editing: false, cursor: 0, ..self }
    }

    pub open spec fn prev_tab(self) -> int {
        if self.current_tab == 0 {
            self.tabs() - 1
        } else {
            self.current_tab - 1
        }
    }

    pub open spec fn following_tab(self) -> int {
        (self.current_tab + 1) % self.tabs()
    }

    /// Whether an Enter at `now` belongs to a paste that just happened.
    pub open spec fn paste_suppressed(self, now: u64) -> bool {
        match self.last_paste {
            Some(t) => since(now, t) < PASTE_ENTER_SUPPRESS_MS,
            None => false,
        }
    }

    /// The dialog after `key` at `now`, and the reply when it ends.
    pub open spec fn after_key(self, key: KeyEvent, now: u64) -> (AskView, Option<Seq<char>>) {
        if self.typing() {
            self.typed_key(key)
        } else {
            let confirm = self.on_confirm();
            match key.code {
                KeyCode::Esc => (self, Some(cancel_reply())),
                KeyCode::Left => (self.at_tab(self.prev_tab()), None),
                KeyCode::Right => (self.at_tab(self.following_tab()), None),
                KeyCode::Tab => if key.shift {
                    (self.at_tab(self.prev_tab()), None)
                } else {
                    (self.at_tab(self.following_tab()), None)
                },
                KeyCode::Up => if !confirm {
                    (
                        AskView {
                            selected: if self.selected == 0 {
                                self.rows() - 1
                            } else {
                                self.selected - 1
                            },
                            ..self
                        },
                        None,
                    )
                } else {
                    (self, None)
                },
                KeyCode::Down => if !confirm {
                    (AskView { selected: (self.selected + 1) % self.rows(), ..self }, None)
                } else {
                    (self, None)
                },
                KeyCode::Char(c) => if !confirm && '1' <= c && c <= '9' {
                    let d = (c as u32) - ('0' as u32);
                    let limit = if self.rows() < 9 {
                        self.rows()
                    } else {
                        9
                    };
                    if d <= limit {
                        AskView { selected: d - 1, ..self }.picked()
                    } else {
                        (self, None)
                    }
                } else {
                    (self, None)
                },
                KeyCode::Enter => if self.paste_suppressed(now) {
                    (AskView { last_paste: None, ..self }, None)
                } else if confirm {
                    (self, Some(reply_text(self.questions, self.answers)))
                } else {
                    self.picked()
                },
                _ => (self, None),
            }
        }
    }

    /// A paste at `now`: its text without line breaks goes into the field
    /// while typing; the time is kept to tell a following Enter apart.
    pub open spec fn after_paste(self, text: Seq<char>, now: u64) -> AskView {
        let v = AskView { last_paste: Some(now), ..self };
        if self.typing() {
            let t = self.field();
            let k = boundary_index(t, self.cursor);
            let s = single_line(text);
            AskView {
                inputs: self.inputs.update(
                    self.current_tab,
                    t.subrange(0, k) + s + t.subrange(k, t.len() as int),
                ),
                cursor: self.cursor + blen(s),
                ..v
            }
        } else {
            v
        }
    }
}

/// The ask-user dialog.
pub struct AskUserState {
    questions: Vec<QuestionInfo>,
    current_tab: usize,
    selected: usize,
    answers: Vec<Option<String>>,
    custom_inputs: Vec<String>,
    custom_cursor: usize,
    editing_custom: bool,
    last_paste: Option<u64>,
}

pub open spec fn answers_view(a: Seq<Option<String>>) -> Seq<Option<Seq<char>>> {
    a.map_values(|o: Option<String>| match o {
        Some(s) => Some(s@),
        None => None,
    })
}

pub open spec fn texts_view(a: Seq<String>) -> Seq<Seq<char>> {
    a.map_values(|s: String| s@)
}

impl View for AskUserState {
    type V = AskView;

    closed spec fn view(&self) -> AskView {
        AskView {
            questions: self.questions@,
            current_tab: self.current_tab as int,
            selected: self.selected as int,
            answers: answers_view(self.answers@),
            inputs: texts_view(self.custom_inputs@),
            cursor: self.custom_cursor as int,
            editing: self.editing_custom,
            last_paste: self.last_paste,
        }
    }
}

/// Escapes the double quotes of `s`.
fn escape_quotes(s: &str) -> (r: Vec<char>)
    ensures
        r@ == escaped(s@),
{
    let v = chars_of(s);
    let p = chars_of("\"");
    let q = chars_of("\\\"");
    chars_replace(&v, &p, &q)
}

/// The reply for the given questions and answers (see `reply_text`).
pub fn format_reply(questions: &[QuestionInfo], answers: &[Option<String>]) -> (r: String)
    requires
        answers@.len() == questions@.len(),
    ensures
        r@ == reply_text(questions@, answers_view(answers@)),
{
    let ghost av = answers_view(answers@);
    let mut out: Vec<char> = Vec::new();
    let mut i: usize = 0;
    while i < questions.len()
        invariant
            i <= questions@.len() == answers@.len(),
            av == answers_view(answers@),
            out@ == reply_upto(questions@, av, i as int),
        decreases questions@.len() - i,
    {
        if i > 0 {
            extend_chars(&mut out, &chars_of(", "));
        }
        let ans = match &answers[i] {
            Some(a) => a.as_str(),
            None => "Unanswered",
        };
        extend_chars(&mut out, &chars_of("\""));
        extend_chars(&mut out, &escape_quotes(questions[i].question.as_str()));
        extend_chars(&mut out, &chars_of("\"=\""));
        extend_chars(&mut out, &escape_quotes(ans));
        extend_chars(&mut out, &chars_of("\""));
        proof {
            let pair = answer_pair(questions@[i as int], av[i as int]);
            if i == 0 {
                assert(out@ =~= pair);
            } else {
                assert(out@ =~= reply_upto(questions@, av, i as int) + ", "@ + pair);
            }
        }
        i = i + 1;
    }
    string_of(&out)
}

impl AskUserState {
    /// A dialog for `questions`, at the first tab with nothing answered.
    pub fn new(questions: Vec<QuestionInfo>) -> (s: AskUserState)
        requires
            questions@.len() < usize::MAX,
            forall|i: int|
                0 <= i < questions@.len() ==> #[trigger] questions@[i].options@.len() < usize::MAX,
        ensures
            s@.wf(),
            s@.questions == questions@,
            s@.current_tab == 0,
            s@.selected == 0,
            s@.answers == Seq::new(questions@.len(), |i: int| None::<Seq<char>>),
            s@.inputs == Seq::new(questions@.len(), |i: int| Seq::<char>::empty()),
            s@.cursor == 0,
            !s@.editing,
            s@.last_paste is None,
    {
        let n = questions.len();
        let mut answers: Vec<Option<String>> = Vec::new();
        let mut inputs: Vec<String> = Vec::new();
        let mut i: usize = 0;
        while i < n
            invariant
                i <= n,
                answers@.len() == i,
                inputs@.len() == i,
                forall|j: int| 0 <= j < i ==> #[trigger] answers@[j] is None,
                forall|j: int| 0 <= j < i ==> #[trigger] inputs@[j]@ == Seq::<char>::empty(),
            decreases n - i,
        {
            answers.push(None);
            inputs.push(String::new());
            i = i + 1;
        }
        let s = AskUserState {
            questions,
            current_tab: 0,
            selected: 0,
            answers,
            custom_inputs: inputs,
            custom_cursor: 0,
            editing_custom: false,
            last_paste: None,
        };
        assert(s@.answers =~= Seq::new(n as nat, |i: int| None::<Seq<char>>));
        assert(s@.inputs =~= Seq::new(n as nat, |i: int| Seq::<char>::empty()));
        s
    }

    pub fn questions(&self) -> (q: &[QuestionInfo])
        ensures
            q@ == self@.questions,
    {
        self.questions.as_slice()
    }

    pub fn current_tab(&self) -> (t: usize)
        ensures
            t == self@.current_tab,
    {
        self.current_tab
    }

    pub fn selected(&self) -> (s: usize)
        ensures
            s == self@.selected,
    {
        self.selected
    }

    pub fn answers(&self) -> (a: &[Option<String>])
        ensures
            answers_view(a@) == self@.answers,
    {
        self.answers.as_slice()
    }

    pub fn custom_inputs(&self) -> (a: &[String])
        ensures
            texts_view(a@) == self@.inputs,
    {
        self.custom_inputs.as_slice()
    }

    pub fn custom_cursor(&self) -> (c: usize)
        ensures
            c == self@.cursor,
    {
        self.custom_cursor
    }

    pub fn editing_custom(&self) -> (b: bool)
        ensures
            b == self@.editing,
    {
        self.editing_custom
    }

    /// Whether the cursor sits on a character boundary of the current
    /// free-text answer (see `AskView::key_needs_cursor`).
    pub fn cursor_in_field(&self) -> (b: bool)
        requires
            self@.wf(),
            !self@.on_confirm(),
        ensures
            b == self@.cursor_ok(),
    {
        let ghost t = self@.field();
        let s = &self.custom_inputs[self.current_tab];
        let v = chars_of(s.as_str());
        let _n = byte_len(s.as_str());
        index_of_boundary(&v, self.custom_cursor).is_some()
    }

    fn set_answer(&mut self, tab: usize, a: String)
        requires
            tab < old(self)@.answers.len(),
            old(self)@.answers.len() == old(self).answers@.len(),
        ensures
            final(self)@ == (AskView {
                answers: old(self)@.answers.update(tab as int, Some(a@)),
                ..old(self)@
            }),
    {
        let ghost a0 = self.answers@;
        self.answers.set(tab, Some(a));
        assert(answers_view(self.answers@) =~= answers_view(a0).update(tab as int, Some(a@)));
    }

    fn set_input(&mut self, tab: usize, s: String)
        requires
            tab < old(self)@.inputs.len(),
            old(self)@.inputs.len() == old(self).custom_inputs@.len(),
        ensures
            final(self)@ == (AskView {
                inputs: old(self)@.inputs.update(tab as int, s@),
                ..old(self)@
            }),
    {
        let ghost a0 = self.custom_inputs@;
        self.custom_inputs.set(tab, s);
        assert(texts_view(self.custom_inputs@) =~= texts_view(a0).update(tab as int, s@));
    }

    /// Picks the selected row (see `AskView::picked`).
    fn try_select(&mut self) -> (r: Option<String>)
        requires
            old(self)@.wf(),
            !old(self)@.on_confirm(),
            old(self)@.n() > 0,
        ensures
            final(self)@.wf(),
            final(self)@ == old(self)@.picked().0,
            match old(self)@.picked().1 {
                Some(t) => r matches Some(s) && s@ == t,
                None => r is None,
            },
    {
        let tab = self.current_tab;
        let n = self.questions.len();
        if self.selected < self.questions[tab].options.len() {
            let label = self.questions[tab].options[self.selected].label.clone();
            self.set_answer(tab, label);
            assert(self@.answers.len() == self.answers@.len());
            if n == 1 {
                Some(format_reply(&self.questions, &self.answers))
            } else {
                self.current_tab = if tab + 1 > n {
                    n
                } else {
                    tab + 1
                };
                self.selected = 0;
                self.editing_custom = false;
                None
            }
        } else {
            self.editing_custom = true;
            None
        }
    }

    fn go_to_tab(&mut self, tab: usize)
        ensures
            final(self)@ == old(self)@.at_tab(tab as int),
    {
        self.current_tab = tab;
        self.selected = 0;
        self.editing_custom = false;
        self.custom_cursor = 0;
    }

    /// Handles a key while typing the free-text answer (see `typed_key`).
    fn handle_editing_key(&mut self, key: &KeyEvent) -> (r: Option<String>)
        requires
            old(self)@.wf(),
            old(self)@.typing(),
            old(self)@.key_needs_cursor(*key) ==> old(self)@.cursor_ok(),
            key.code matches KeyCode::Char(c) ==> blen(old(self)@.field()) + char_len(c)
                <= usize::MAX,
        ensures
            final(self)@.wf(),
            final(self)@ == old(self)@.typed_key(*key).0,
            match old(self)@.typed_key(*key).1 {
                Some(t) => r matches Some(s) && s@ == t,
                None => r is None,
            },
    {
        let tab = self.current_tab;
        let n = self.questions.len();
        let ghost v0 = self@;
        match key.code {
            KeyCode::Esc => {
                self.editing_custom = false;
                return None;
            },
            KeyCode::Enter => {
                let v = chars_of(self.custom_inputs[tab].as_str());
                let t = trim_chars(&v);
                if t.len() == 0 {
                    self.editing_custom = false;
                    return None;
                }
                let text = string_of(&t);
                self.set_input(tab, text.clone());
                self.set_answer(tab, text);
                assert(self@.answers.len() == self.answers@.len());
                if n == 1 {
                    return Some(format_reply(&self.questions, &self.answers));
                }
                self.current_tab = if tab + 1 > n {
                    n
                } else {
                    tab + 1
                };
                self.selected = 0;
                self.editing_custom = false;
                self.custom_cursor = 0;
                return None;
            },
            _ => {},
        }
        let s = self.custom_inputs[tab].as_str();
        let v = chars_of(s);
        let total = byte_len(s);
        let ghost t = v@;
        let cur = self.custom_cursor;
        match key.code {
            KeyCode::Home => {
                self.custom_cursor = 0;
            },
            KeyCode::End => {
                self.custom_cursor = total;
            },
            KeyCode::Left => {
                if cur > 0 {
                    let k = match index_of_boundary(&v, cur) {
                        Some(k) => k,
                        None => 0,
                    };
                    proof {
                        if k == 0 {
                            assert(byte_at(t, 0) == 0) by {
                                assert(t.take(0) =~= Seq::<char>::empty());
                            }
                        }
                    }
                    self.custom_cursor = byte_offset(&v, k - 1);
                }
            },
            KeyCode::Right => {
                if cur < total {
                    let k = match index_of_boundary(&v, cur) {
                        Some(k) => k,
                        None => 0,
                    };
                    proof {
                        lemma_byte_at_total(t);
                        if k == t.len() {
                            assert(false);
                        }
                    }
                    self.custom_cursor = byte_offset(&v, k + 1);
                }
            },
            KeyCode::Backspace => {
                if cur > 0 {
                    let k = match index_of_boundary(&v, cur) {
                        Some(k) => k,
                        None => 0,
                    };
                    proof {
                        if k == 0 {
                            assert(byte_at(t, 0) == 0) by {
                                assert(t.take(0) =~= Seq::<char>::empty());
                            }
                        }
                    }
                    let prev = byte_offset(&v, k - 1);
                    let mut w = v;
                    w.remove(k - 1);
                    self.set_input(tab, string_of(&w));
                    self.custom_cursor = prev;
                }
            },
            KeyCode::Delete => {
                if cur < total {
                    let k = match index_of_boundary(&v, cur) {
                        Some(k) => k,
                        None => 0,
                    };
                    proof {
                        lemma_byte_at_total(t);
                        if k == t.len() {
                            assert(false);
                        }
                    }
                    let mut w = v;
                    w.remove(k);
                    self.set_input(tab, string_of(&w));
                }
            },
            KeyCode::Char(c) => {
                if !key.ctrl {
                    let k = match index_of_boundary(&v, cur) {
                        Some(k) => k,
                        None => 0,
                    };
                    let mut w = v;
                    w.insert(k, c);
                    self.set_input(tab, string_of(&w));
                    proof {
                        lemma_byte_at_total(t);
                        lemma_byte_at_strict(t, k as int, t.len() as int);
                    }
                    self.custom_cursor = cur + char_len_of(c);
                }
            },
            _ => {},
        }
        proof {
            assert(v0.inputs.update(tab as int, v0.inputs[tab as int]) =~= v0.inputs);
        }
        None
    }

    /// The reply for the answers given so far, to send when the dialog is
    /// submitted: each question with its answer, `Unanswered` for the rest.
    pub fn submit_and_finish(&self) -> (r: String)
        requires
            self@.wf(),
        ensures
            r@ == reply_text(self@.questions, self@.answers),
    {
        format_reply(self.questions.as_slice(), self.answers.as_slice())
    }

    /// Handles a key at `now` (see `AskView::after_key`). Returns the reply
    /// when the dialog ends: the answers, or `[User Cancelled]` on Esc.
    pub fn handle_key(&mut self, key: &KeyEvent, now: u64) -> (r: Option<String>)
        requires
            old(self)@.wf(),
            old(self)@.typing() && old(self)@.key_needs_cursor(*key) ==> old(self)@.cursor_ok(),
            key.code matches KeyCode::Char(c) ==> (old(self)@.typing() ==> blen(old(self)@.field())
                + char_len(c) <= usize::MAX),
        ensures
            final(self)@.wf(),
            final(self)@ == old(self)@.after_key(*key, now).0,
            match old(self)@.after_key(*key, now).1 {
                Some(t) => r matches Some(s) && s@ == t,
                None => r is None,
            },
    {
        let n = self.questions.len();
        let single = n == 1;
        let tabs: usize = if single {
            1
        } else {
            n + 1
        };
        let confirm = !single && self.current_tab == n;
        if self.editing_custom && !confirm {
            return self.handle_editing_key(key);
        }
        match key.code {
            KeyCode::Esc => Some("[User Cancelled]".to_owned()),
            KeyCode::Left => {
                let t = if self.current_tab == 0 {
                    tabs - 1
                } else {
                    self.current_tab - 1
                };
                self.go_to_tab(t);
                None
            },
            KeyCode::Right => {
                let t = (self.current_tab + 1) % tabs;
                self.go_to_tab(t);
                None
            },
            KeyCode::Tab => {
                let t = if key.shift {
                    if self.current_tab == 0 {
                        tabs - 1
                    } else {
                        self.current_tab - 1
                    }
                } else {
                    (self.current_tab + 1) % tabs
                };
                self.go_to_tab(t);
                None
            },
            KeyCode::Up => {
                if !confirm {
                    let rows = self.questions[self.current_tab].options.len() + 1;
                    self.selected = if self.selected == 0 {
                        rows - 1
                    } else {
                        self.selected - 1
                    };
                }
                None
            },
            KeyCode::Down => {
                if !confirm {
                    let rows = self.questions[self.current_tab].options.len() + 1;
                    self.selected = (self.selected + 1) % rows;
                }
                None
            },
            KeyCode::Char(c) => {
                if !confirm && '1' <= c && c <= '9' {
                    let d = (c as u32 - '0' as u32) as usize;
                    let rows = self.questions[self.current_tab].options.len() + 1;
                    let limit = if rows < 9 {
                        rows
                    } else {
                        9
                    };
                    if d <= limit {
                        self.selected = d - 1;
                        return self.try_select();
                    }
                }
                None
            },
            KeyCode::Enter => {
                let suppressed = match self.last_paste {
                    Some(t) => duration_since(now, t) < PASTE_ENTER_SUPPRESS_MS,
                    None => false,
                };
                if suppressed {
                    self.last_paste = None;
                    None
                } else if confirm {
                    assert(self@.answers.len() == self.answers@.len());
                    Some(format_reply(&self.questions, &self.answers))
                } else {
                    self.try_select()
                }
            },
            _ => None,
        }
    }

    /// Takes a paste at `now` (see `AskView::after_paste`).
    pub fn handle_paste(&mut self, text: &str, now: u64)
        requires
            old(self)@.wf(),
            old(self)@.typing() ==> old(self)@.cursor_ok(),
            old(self)@.typing() ==> blen(old(self)@.field()) + blen(text@) <= usize::MAX,
        ensures
            final(self)@.wf(),
            final(self)@ == old(self)@.after_paste(text@, now),
    {
        let n = self.questions.len();
        let confirm = n != 1 && self.current_tab == n;
        if self.editing_custom && !confirm {
            let tab = self.current_tab;
            let s = self.custom_inputs[tab].as_str();
            let v = chars_of(s);
            let _total = byte_len(s);
            let clean = strip_line_breaks(text);
            let k = match index_of_boundary(&v, self.custom_cursor) {
                Some(k) => k,
                None => 0,
            };
            proof {
                lemma_single_line_blen(text@);
                lemma_len_le_blen(v@);
                lemma_len_le_blen(clean@);
                lemma_byte_at_strict(v@, k as int, v@.len() as int);
                lemma_byte_at_total(v@);
            }
            let w = splice_chars(&v, k, k, &clean);
            let added = byte_len(string_of(&clean).as_str());
            self.set_input(tab, string_of(&w));
            self.custom_cursor = self.custom_cursor + added;
        }
        self.last_paste = Some(now);
    }
}

// ===== Reading a reply back =====

/// Index of the closing `"` of a quoted text whose contents start at `j`
/// (a backslash escapes the character after it); `s.len()` or more when
/// the text is not closed.
pub open spec fn quote_end(s: Seq<char>, j: int) -> int
    decreases s.len() - j,
{
    if j >= s.len() {
        j
    } else if s[j] == '\\' {
        if j + 2 >= s.len() {
            j + 2
        } else {
            quote_end(s, j + 2)
        }
    } else if s[j] == '"' {
        j
    } else {
        quote_end(s, j + 1)
    }
}

/// Index of the first character at or after `k` that is not a space.
pub open spec fn skip_spaces(s: Seq<char>, k: int) -> int
    decreases s.len() - k,
{
    if k >= s.len() || s[k] != ' ' {
        k
    } else {
        skip_spaces(s, k + 1)
    }
}

/// A quoted text with its escaped quotes restored.
pub open spec fn unescaped(s: Seq<char>) -> Seq<char> {
    replace_all(s, "\\\""@, "\""@)
}

/// The `"key"="value"` pairs of `s` from index `i` on: a quoted key,
/// spaces, `=`, spaces and a quoted value; anything else is skipped, and an
/// unclosed quote ends the reading.
pub open spec fn pairs_from(s: Seq<char>, i: int) -> Seq<(Seq<char>, Seq<char>)>
    decreases s.len() - i,
{
    if i < 0 || i >= s.len() {
        Seq::empty()
    } else if s[i] != '"' {
        pairs_from(s, i + 1)
    } else {
        proof {
            lemma_quote_end_bounds(s, i + 1);
        }
        let j = quote_end(s, i + 1);
        if j >= s.len() {
            Seq::empty()
        } else {
            let k = skip_spaces(s, j + 1);
            if k >= s.len() || s[k] != '=' {
                pairs_from(s, j + 1)
            } else {
                let k2 = skip_spaces(s, k + 1);
                if k2 >= s.len() || s[k2] != '"' {
                    pairs_from(s, j + 1)
                } else {
                    proof {
                        lemma_skip_spaces_bounds(s, j + 1);
                        lemma_skip_spaces_bounds(s, k + 1);
                        lemma_quote_end_bounds(s, k2 + 1);
                    }
                    let m = quote_end(s, k2 + 1);
                    if m >= s.len() {
                        Seq::empty()
                    } else {
                        seq![(unescaped(s.subrange(i + 1, j)), unescaped(s.subrange(k2 + 1, m)))]
                            + pairs_from(s, m + 1)
                    }
                }
            }
        }
    }
}

pub proof fn lemma_quote_end_bounds(s: Seq<char>, j: int)
    ensures
        quote_end(s, j) >= j,
        quote_end(s, j) < s.len() ==> s[quote_end(s, j)] == '"',
    decreases s.len() - j,
{
    if j < s.len() {
        if s[j] == '\\' {
            if j + 2 < s.len() {
                lemma_quote_end_bounds(s, j + 2);
            }
        } else if s[j] != '"' {
            lemma_quote_end_bounds(s, j + 1);
        }
    }
}

pub proof fn lemma_skip_spaces_bounds(s: Seq<char>, k: int)
    ensures
        skip_spaces(s, k) >= k,
    decreases s.len() - k,
{
    if k < s.len() && s[k] == ' ' {
        lemma_skip_spaces_bounds(s, k + 1);
    }
}

fn find_quote_end(v: &[char], j: usize) -> (r: usize)
    requires
        j <= v@.len(),
    ensures
        r <= v@.len(),
        r as int == quote_end(v@, j as int) || (r == v@.len() && quote_end(v@, j as int)
            >= v@.len()),
{
    let n = v.len();
    let mut p = j;
    while p < n && v[p] != '"'
        invariant
            n == v@.len(),
            j <= p <= n,
            quote_end(v@, j as int) == quote_end(v@, p as int),
        decreases n - p,
    {
        if v[p] == '\\' {
            if n - p <= 2 {
                return n;
            }
            p = p + 2;
        } else {
            p = p + 1;
        }
    }
    p
}

fn skip_space_chars(v: &[char], k: usize) -> (r: usize)
    ensures
        r == skip_spaces(v@, k as int),
{
    let mut p = k;
    while p < v.len() && v[p] == ' '
        invariant
            k <= p,
            skip_spaces(v@, k as int) == skip_spaces(v@, p as int),
        decreases v@.len() - p,
    {
        p = p + 1;
    }
    p
}

fn unescape_chars(v: &[char], from: usize, to: usize) -> (r: String)
    requires
        from <= to <= v@.len(),
    ensures
        r@ == unescaped(v@.subrange(from as int, to as int)),
{
    let part = crate::text::sub_chars(v, from, to);
    let p = chars_of("\\\"");
    let q = chars_of("\"");
    string_of(&chars_replace(&part, &p, &q))
}

/// The `"question"="answer"` pairs of an ask-user reply (see `pairs_from`).
pub fn parse_ask_user_pairs(result: &str) -> (r: Vec<(String, String)>)
    ensures
        r@.map_values(|p: (String, String)| (p.0@, p.1@)) == pairs_from(result@, 0),
{
    let v = chars_of(result);
    let n = v.len();
    let ghost s = v@;
    let mut out: Vec<(String, String)> = Vec::new();
    let mut i: usize = 0;
    while i < n
        invariant
            n == s.len(),
            s == v@,
            s == result@,
            i <= n,
            out@.map_values(|p: (String, String)| (p.0@, p.1@)) + pairs_from(s, i as int)
                == pairs_from(s, 0),
        decreases n - i,
    {
        let ghost before = out@.map_values(|p: (String, String)| (p.0@, p.1@));
        if v[i] != '"' {
            i = i + 1;
        } else {
            let j = find_quote_end(&v, i + 1);
            proof {
                lemma_quote_end_bounds(s, i + 1);
            }
            if j >= n {
                proof {
                    assert(before + pairs_from(s, n as int) =~= before);
                }
                i = n;
            } else {
                let k = skip_space_chars(&v, j + 1);
                proof {
                    lemma_skip_spaces_bounds(s, j + 1);
                }
                if k >= n || v[k] != '=' {
                    i = j + 1;
                } else {
                    let k2 = skip_space_chars(&v, k + 1);
                    proof {
                        lemma_skip_spaces_bounds(s, k + 1);
                    }
                    if k2 >= n || v[k2] != '"' {
                        i = j + 1;
                    } else {
                        let m = find_quote_end(&v, k2 + 1);
                        proof {
                            lemma_quote_end_bounds(s, k2 + 1);
                        }
                        if m >= n {
                            proof {
                                assert(before + pairs_from(s, n as int) =~= before);
                            }
                            i = n;
                        } else {
                            let key = unescape_chars(&v, i + 1, j);
                            let val = unescape_chars(&v, k2 + 1, m);
                            let ghost pair = (key@, val@);
                            out.push((key, val));
                            proof {
                                assert(out@.map_values(|p: (String, String)| (p.0@, p.1@))
                                    =~= before.push(pair));
                                assert(before.push(pair) + pairs_from(s, m + 1) =~= before + (
                                seq![pair] + pairs_from(s, m + 1)));
                            }
                            i = m + 1;
                        }
                    }
                }
            }
        }
    }
    proof {
        assert(out@.map_values(|p: (String, String)| (p.0@, p.1@)) + pairs_from(s, n as int)
            =~= out@.map_values(|p: (String, String)| (p.0@, p.1@)));
    }
    out
}

// ===== Answers shown under a finished call =====

/// The answer of the first pair, from `i` on, whose question is `q`.
pub open spec fn first_answer(pairs: Seq<(Seq<char>, Seq<char>)>, q: Seq<char>, i: int) -> Option<
    Seq<char>,
>
    decreases pairs.len() - i,
{
    if i < 0 || i >= pairs.len() {
        None
    } else if pairs[i].0 == q {
        Some(pairs[i].1)
    } else {
        first_answer(pairs, q, i + 1)
    }
}

/// Question `i` of the `questions` array of ask-user arguments (empty when
/// it has no `question` string).
pub open spec fn argument_question(args: Seq<char>, i: int) -> Seq<char> {
    or_else(json_item_str_member(args, "questions"@, i as usize, "question"@), ""@)
}

/// The rows shown under a finished ask-user call: None when the user
/// cancelled; else each question of the arguments with the answer the
/// result gives it, `Unanswered` when it gives none.
pub open spec fn answered_rows(args: Seq<char>, result: Seq<char>) -> Option<
    Seq<(Seq<char>, Seq<char>)>,
> {
    if contains_seq(result, "[User Cancelled]"@) {
        None
    } else {
        let n = match json_array_member_len(args, "questions"@) {
            Some(k) => k as int,
            None => 0,
        };
        Some(
            Seq::new(
                n as nat,
                |i: int|
                    (
                        argument_question(args, i),
                        or_else(
                            first_answer(pairs_from(result, 0), argument_question(args, i), 0),
                            "Unanswered"@,
                        ),
                    ),
            ),
        )
    }
}

fn find_answer(pairs: &[(String, String)], q: &[char]) -> (r: Option<String>)
    ensures
        opt_view(r) == first_answer(pairs@.map_values(|p: (String, String)| (p.0@, p.1@)), q@, 0),
{
    let ghost pv = pairs@.map_values(|p: (String, String)| (p.0@, p.1@));
    let mut i: usize = 0;
    while i < pairs.len()
        invariant
            i <= pairs@.len(),
            pv == pairs@.map_values(|p: (String, String)| (p.0@, p.1@)),
            first_answer(pv, q@, 0) == first_answer(pv, q@, i as int),
        decreases pairs@.len() - i,
    {
        if chars_eq(&chars_of(pairs[i].0.as_str()), q) {
            return Some(string_of(&chars_of(pairs[i].1.as_str())));
        }
        i = i + 1;
    }
    None
}

/// The question-and-answer rows shown under a finished ask-user call (see
/// `answered_rows`).
pub fn answered_questions(arguments: &str, result: &str) -> (r: Option<Vec<(String, String)>>)
    ensures
        match answered_rows(arguments@, result@) {
            None => r is None,
            Some(rows) => r matches Some(v) && v@.map_values(|p: (String, String)| (p.0@, p.1@))
                == rows,
        },
{
    if str_contains(result, "[User Cancelled]") {
        return None;
    }
    let pairs = parse_ask_user_pairs(result);
    let n = match json_array_len(arguments, "questions") {
        Some(k) => k,
        None => 0,
    };
    let ghost rows = answered_rows(arguments@, result@).unwrap();
    let mut out: Vec<(String, String)> = Vec::new();
    let mut i: usize = 0;
    while i < n
        invariant
            i <= n,
            n as int == rows.len(),
            rows == answered_rows(arguments@, result@).unwrap(),
            !contains_seq(result@, "[User Cancelled]"@),
            pairs@.map_values(|p: (String, String)| (p.0@, p.1@)) == pairs_from(result@, 0),
            out@.len() == i,
            forall|k: int|
                0 <= k < i ==> (#[trigger] out@[k]).0@ == rows[k].0 && out@[k].1@ == rows[k].1,
        decreases n - i,
    {
        let q = or_else_string(json_item_str_field(arguments, "questions", i, "question"), "");
        let a = find_answer(pairs.as_slice(), &q);
        let answer = or_else_string(a, "Unanswered");
        out.push((string_of(&q), string_of(&answer)));
        i = i + 1;
    }
    proof {
        assert(out@.map_values(|p: (String, String)| (p.0@, p.1@)) =~= rows);
    }
    Some(out)
}

} // verus!

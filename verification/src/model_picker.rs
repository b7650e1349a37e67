//! The add-model form: a wizard that asks for a provider (an existing one
//! or a new one with its endpoint and key), a model name and a context
//! window; and the line wrapping its input box is drawn with.

use vstd::prelude::*;

use crate::keys::{KeyCode, KeyEvent};
use crate::line_edit::{parse_u32, parsed_u32, single_line, strip_line_breaks, LineEdit, LineView};
use crate::text::{
    blen, byte_at, byte_len, char_len, char_len_of, chars_of, lemma_byte_at_strict,
    lemma_byte_at_total, push_char,
};
use crate::width::{char_width, unicode_char_width};

verus! {

// ===== Wrapping the input box =====

/// Columns a character takes in the input box: its display width, and one
/// column for a control character.
pub open spec fn box_cols(c: char) -> nat {
    match unicode_char_width(c) {
        Some(w) => w as nat,
        None => 1,
    }
}

/// What wrapping has produced after some characters: the finished lines,
/// the line being filled and its width, and where the cursor was met.
pub struct WrapState {
    pub lines: Seq<Seq<char>>,
    pub cur: Seq<char>,
    pub cur_w: nat,
    pub row: nat,
    pub col: nat,
}

/// Greedy wrapping of the first `k` characters of `s` into lines of at most
/// `width` columns (a character wider than the whole line gets a line of
/// its own, after an empty one). The cursor, a byte offset, is met before
/// the character that starts at it.
pub open spec fn wrap_upto(s: Seq<char>, k: int, width: nat, cursor: int) -> WrapState
    decreases k,
{
    if k <= 0 {
        WrapState { lines: Seq::empty(), cur: Seq::empty(), cur_w: 0, row: 0, col: 0 }
    } else {
        let st = wrap_upto(s, k - 1, width, cursor);
        let ch = s[k - 1];
        let w = box_cols(ch);
        let here = byte_at(s, k - 1) == cursor;
        if st.cur_w + w > width {
            let lines = st.lines.push(st.cur);
            WrapState {
                lines,
                cur: seq![ch],
                cur_w: w,
                row: if here {
                    lines.len()
                } else {
                    st.row
                },
                col: if here {
                    0
                } else {
                    st.col
                },
            }
        } else {
            WrapState {
                lines: st.lines,
                cur: st.cur.push(ch),
                cur_w: st.cur_w + w,
                row: if here {
                    st.lines.len()
                } else {
                    st.row
                },
                col: if here {
                    st.cur_w
                } else {
                    st.col
                },
            }
        }
    }
}

/// The wrapped lines of `s` at `width` columns, with the row and column of
/// the byte offset `cursor` (`0, 0` where no character starts there and it
/// is not the end). A width of zero gives one empty line.
pub open spec fn wrapped(s: Seq<char>, cursor: int, width: nat) -> (Seq<Seq<char>>, nat, nat) {
    if width == 0 {
        (seq![Seq::<char>::empty()], 0, 0)
    } else {
        let st = wrap_upto(s, s.len() as int, width, cursor);
        let here = blen(s) == cursor;
        (
            st.lines.push(st.cur),
            if here {
                st.lines.len()
            } else {
                st.row
            },
            if here {
                st.cur_w
            } else {
                st.col
            },
        )
    }
}

proof fn lemma_wrap_bounds(s: Seq<char>, k: int, width: nat, cursor: int)
    requires
        0 <= k <= s.len(),
        width > 0,
    ensures
        wrap_upto(s, k, width, cursor).lines.len() <= k,
        wrap_upto(s, k, width, cursor).row <= wrap_upto(s, k, width, cursor).lines.len(),
    decreases k,
{
    if k > 0 {
        lemma_wrap_bounds(s, k - 1, width, cursor);
    }
}

proof fn lemma_wrap_keeps_prefix(s: Seq<char>, k: int, width: nat, cursor: int)
    requires
        0 <= k <= s.len(),
    ensures
        wrap_upto(s, k, width, cursor).lines.flatten_alt() + wrap_upto(s, k, width, cursor).cur
            == s.take(k),
    decreases k,
{
    if k == 0 {
        assert(Seq::<Seq<char>>::empty().flatten_alt() + Seq::<char>::empty() =~= s.take(0));
    } else {
        lemma_wrap_keeps_prefix(s, k - 1, width, cursor);
        let st = wrap_upto(s, k - 1, width, cursor);
        let nx = wrap_upto(s, k, width, cursor);
        assert(s.take(k) =~= s.take(k - 1).push(s[k - 1]));
        if st.cur_w + box_cols(s[k - 1]) > width {
            assert(st.lines.push(st.cur).drop_last() =~= st.lines);
            assert(nx.lines.flatten_alt() =~= st.lines.flatten_alt() + st.cur);
            assert(nx.lines.flatten_alt() + nx.cur =~= s.take(k));
        } else {
            assert(nx.lines.flatten_alt() + nx.cur =~= s.take(k));
        }
    }
}

/// Wrapping loses no character and adds none: for a width of at least one
/// column, the wrapped lines joined give back the text.
pub proof fn law_wrapping_keeps_text(s: Seq<char>, cursor: int, width: nat)
    requires
        width > 0,
    ensures
        wrapped(s, cursor, width).0.flatten() == s,
{
    lemma_wrap_keeps_prefix(s, s.len() as int, width, cursor);
    let st = wrap_upto(s, s.len() as int, width, cursor);
    let ls = st.lines.push(st.cur);
    assert(ls.drop_last() =~= st.lines);
    assert(s.take(s.len() as int) =~= s);
    ls.lemma_flatten_and_flatten_alt_are_equivalent();
    assert(ls.flatten_alt() =~= s);
}

/// Columns of `c` in the input box (see `box_cols`).
fn box_cols_of(c: char) -> (w: usize)
    ensures
        w == box_cols(c),
        w <= 3,
{
    match char_width(c) {
        Some(w) => w,
        None => 1,
    }
}

/// Wraps `buffer` into lines of at most `width` columns and finds the row
/// and column of the byte offset `cursor` (see `wrapped`).
pub fn wrap_input(buffer: &str, cursor: usize, width: usize) -> (r: (Vec<String>, usize, usize))
    ensures
        ({
            let (lines, row, col) = wrapped(buffer@, cursor as int, width as nat);
            &&& r.0@.map_values(|l: String| l@) == lines
            &&& r.1 == row
            &&& r.2 == col
        }),
{
    if width == 0 {
        let mut lines: Vec<String> = Vec::new();
        lines.push(String::new());
        proof {
            assert(lines@.map_values(|l: String| l@) =~= seq![Seq::<char>::empty()]);
        }
        return (lines, 0, 0);
    }
    let chars = chars_of(buffer);
    let total = byte_len(buffer);
    let ghost s = buffer@;
    let mut lines: Vec<String> = Vec::new();
    let mut current = String::new();
    let mut current_w: usize = 0;
    let mut cursor_row: usize = 0;
    let mut cursor_col: usize = 0;
    let mut byte_pos: usize = 0;
    let mut i: usize = 0;
    while i < chars.len()
        invariant
            chars@ == s,
            total == blen(s),
            width > 0,
            i <= s.len(),
            byte_pos == byte_at(s, i as int),
            current_w <= width || current_w <= 3,
            ({
                let st = wrap_upto(s, i as int, width as nat, cursor as int);
                &&& lines@.map_values(|l: String| l@) == st.lines
                &&& current@ == st.cur
                &&& current_w == st.cur_w
                &&& cursor_row == st.row
                &&& cursor_col == st.col
            }),
        decreases s.len() - i,
    {
        let ch = chars[i];
        let ch_w = box_cols_of(ch);
        let ghost st0 = wrap_upto(s, i as int, width as nat, cursor as int);
        proof {
            lemma_wrap_bounds(s, i as int, width as nat, cursor as int);
            lemma_byte_at_strict(s, i as int, i + 1);
            lemma_byte_at_strict(s, i + 1, s.len() as int);
            lemma_byte_at_total(s);
            assert(s.take(i + 1).drop_last() =~= s.take(i as int));
            assert(lines@.len() <= i);
        }
        if byte_pos == cursor {
            cursor_row = lines.len();
            cursor_col = current_w;
        }
        let wraps = if current_w > width {
            true
        } else {
            ch_w > width - current_w
        };
        if wraps {
            let ghost before = lines@;
            lines.push(current);
            current = String::new();
            current_w = 0;
            if byte_pos == cursor {
                cursor_row = lines.len();
                cursor_col = 0;
            }
            proof {
                assert(lines@.map_values(|l: String| l@) =~= before.map_values(|l: String| l@).push(
                    st0.cur,
                ));
            }
        }
        push_char(&mut current, ch);
        current_w = current_w + ch_w;
        byte_pos = byte_pos + char_len_of(ch);
        i = i + 1;
        proof {
            if !wraps {
                assert(current@ == st0.cur.push(ch));
            } else {
                assert(current@ =~= seq![ch]);
            }
        }
    }
    proof {
        lemma_wrap_bounds(s, s.len() as int, width as nat, cursor as int);
        lemma_byte_at_total(s);
    }
    if byte_pos == cursor {
        cursor_row = lines.len();
        cursor_col = current_w;
    }
    let ghost before = lines@;
    lines.push(current);
    proof {
        assert(lines@.map_values(|l: String| l@) =~= before.map_values(|l: String| l@).push(
            wrap_upto(s, s.len() as int, width as nat, cursor as int).cur,
        ));
    }
    (lines, cursor_row, cursor_col)
}

// ===== The add-model form =====

/// The step the add-model form is at.
#[derive(Debug, Clone, Copy, PartialEq, Eq, Structural)]
pub enum AddModelStep {
    SelectProvider,
    InputProviderName,
    InputBaseUrl,
    InputApiKey,
    InputModelName,
    InputContextWindow,
}

/// A provider that is configured already: its id and endpoint.
#[derive(Debug, Clone)]
pub struct ProviderInfo {
    pub id: String,
    pub base_url: String,
}

/// Why a form refused what was typed.
#[derive(Debug, Clone, Copy, PartialEq, Eq, Structural)]
pub enum FormError {
    EmptyProviderName,
    EmptyBaseUrl,
    EmptyApiKey,
    EmptyModelName,
    InvalidNumber,
}

/// The message shown for a refusal.
pub open spec fn error_text(e: FormError) -> Seq<char> {
    match e {
        FormError::EmptyProviderName => "服务商名称不能为空"@,
        FormError::EmptyBaseUrl => "API 地址不能为空"@,
        FormError::EmptyApiKey => "API Key 不能为空"@,
        FormError::EmptyModelName => "模型名称不能为空"@,
        FormError::InvalidNumber => "请输入有效的数字"@,
    }
}

impl FormError {
    /// The message shown for this refusal.
    pub fn message(&self) -> (s: String)
        ensures
            s@ == error_text(*self),
    {
        match self {
            FormError::EmptyProviderName => "服务商名称不能为空".to_owned(),
            FormError::EmptyBaseUrl => "API 地址不能为空".to_owned(),
            FormError::EmptyApiKey => "API Key 不能为空".to_owned(),
            FormError::EmptyModelName => "模型名称不能为空".to_owned(),
            FormError::InvalidNumber => "请输入有效的数字".to_owned(),
        }
    }
}

/// Context window used when the field is left empty, and the text the
/// field starts with.
pub const DEFAULT_CONTEXT_WINDOW: u32 = 131072;

/// The text the context-window field starts with.
pub open spec fn default_window_text() -> Seq<char> {
    "131072"@
}

/// The context window a field text stands for: the default when empty, else
/// the number it parses to (`None` if it is no `u32`).
pub open spec fn context_window_of(t: Seq<char>) -> Option<u32> {
    if t.len() == 0 {
        Some(DEFAULT_CONTEXT_WINDOW)
    } else {
        parsed_u32(t)
    }
}

/// A model to add to the configuration. The endpoint and key are given
/// only for a provider that the form created.
#[derive(Debug, Clone)]
pub struct NewModel {
    pub provider_id: String,
    pub base_url: Option<String>,
    pub api_key: Option<String>,
    pub model_name: String,
    pub context_window: u32,
}

/// What a key did to the add-model form: nothing beyond the form, closing
/// it (back to the model picker), or finishing it with a model to save.
#[derive(Debug, Clone)]
pub enum AddModelOutcome {
    Stay,
    Cancel,
    Save(NewModel),
}

/// The add-model form as plain values.
pub struct AddModelView {
    pub step: AddModelStep,
    pub input: LineView,
    pub error: Seq<char>,
    pub selected: int,
    pub provider_id: Seq<char>,
    pub base_url: Seq<char>,
    pub api_key: Seq<char>,
    pub model_name: Seq<char>,
    pub providers: Seq<ProviderInfo>,
}

impl AddModelView {
    pub open spec fn wf(self) -> bool {
        &&& self.input.wf()
        &&& self.step == AddModelStep::SelectProvider ==> self.input == LineView::empty()
        &&& 0 <= self.selected <= self.providers.len()
    }

    /// The refusal for an empty field at the current step.
    pub open spec fn empty_error(self) -> FormError {
        match self.step {
            AddModelStep::InputProviderName => FormError::EmptyProviderName,
            AddModelStep::InputBaseUrl => FormError::EmptyBaseUrl,
            AddModelStep::InputApiKey => FormError::EmptyApiKey,
            _ => FormError::EmptyModelName,
        }
    }

    /// Enter on a filled text field: the value is kept and the next field
    /// comes up, empty except for the context window, which starts with
    /// the default.
    pub open spec fn advanced(self) -> AddModelView {
        let t = self.input.text;
        match self.step {
            AddModelStep::InputProviderName => AddModelView {
                provider_id: t,
                step: AddModelStep::InputBaseUrl,
                input: LineView::empty(),
                ..self
            },
            AddModelStep::InputBaseUrl => AddModelView {
                base_url: t,
                step: AddModelStep::InputApiKey,
                input: LineView::empty(),
                ..self
            },
            AddModelStep::InputApiKey => AddModelView {
                api_key: t,
                step: AddModelStep::InputModelName,
                input: LineView::empty(),
                ..self
            },
            AddModelStep::InputModelName => AddModelView {
                model_name: t,
                step: AddModelStep::InputContextWindow,
                input: LineView::at_end(default_window_text()),
                ..self
            },
            _ => self,
        }
    }

    /// The form after `code`, the message cleared first (Esc leaves it alone:
    /// the form closes).
    pub open spec fn after_key(self, code: KeyCode) -> AddModelView {
        let v = AddModelView { error: Seq::empty(), ..self };
        let n = self.providers.len() as int;
        if code == KeyCode::Esc {
            self
        } else {
            match self.step {
                AddModelStep::SelectProvider => match code {
                    KeyCode::Up => if v.selected > 0 {
                        AddModelView { selected: v.selected - 1, ..v }
                    } else {
                        v
                    },
                    KeyCode::Down => if v.selected + 1 < n + 1 {
                        AddModelView { selected: v.selected + 1, ..v }
                    } else {
                        v
                    },
                    KeyCode::Enter => if v.selected < n {
                        AddModelView {
                            provider_id: self.providers[v.selected].id@,
                            base_url: self.providers[v.selected].base_url@,
                            api_key: Seq::empty(),
                            step: AddModelStep::InputModelName,
                            input: LineView::empty(),
                            ..v
                        }
                    } else {
                        AddModelView {
                            step: AddModelStep::InputProviderName,
                            input: LineView::empty(),
                            ..v
                        }
                    },
                    _ => v,
                },
                AddModelStep::InputContextWindow => if code == KeyCode::Enter {
                    if context_window_of(v.input.text) is Some {
                        v
                    } else {
                        AddModelView { error: error_text(FormError::InvalidNumber), ..v }
                    }
                } else {
                    AddModelView { input: v.input.edited(code), ..v }
                },
                _ => if code == KeyCode::Enter {
                    if v.input.text.len() == 0 {
                        AddModelView { error: error_text(v.empty_error()), ..v }
                    } else {
                        v.advanced()
                    }
                } else {
                    AddModelView { input: v.input.edited(code), ..v }
                },
            }
        }
    }

    /// Whether `code` finishes the form: Enter on the context window with a
    /// valid number.
    pub open spec fn saves_on(self, code: KeyCode) -> bool {
        &&& code == KeyCode::Enter
        &&& self.step == AddModelStep::InputContextWindow
        &&& context_window_of(self.input.text) is Some
    }

    /// A pasted text goes into the field without its line breaks, except
    /// while a provider is being chosen.
    pub open spec fn after_paste(self, t: Seq<char>) -> AddModelView {
        if self.step == AddModelStep::SelectProvider {
            self
        } else {
            AddModelView { input: self.input.inserted(single_line(t)), error: Seq::empty(), ..self }
        }
    }
}

/// The add-model wizard.
pub struct AddModelForm {
    step: AddModelStep,
    input: LineEdit,
    error_msg: String,
    selected_index: usize,
    provider_id: String,
    base_url: String,
    api_key: String,
    model_name: String,
    provider_options: Vec<ProviderInfo>,
}

impl View for AddModelForm {
    type V = AddModelView;

    closed spec fn view(&self) -> AddModelView {
        AddModelView {
            step: self.step,
            input: self.input@,
            error: self.error_msg@,
            selected: self.selected_index as int,
            provider_id: self.provider_id@,
            base_url: self.base_url@,
            api_key: self.api_key@,
            model_name: self.model_name@,
            providers: self.provider_options@,
        }
    }
}

impl AddModelForm {
    pub open spec fn wf(&self) -> bool {
        self@.wf()
    }

    /// A new form that offers the given configured providers, and a new one.
    pub fn new(existing_providers: Vec<ProviderInfo>) -> (f: AddModelForm)
        ensures
            f.wf(),
            f@ == (AddModelView {
                step: AddModelStep::SelectProvider,
                input: LineView::empty(),
                error: Seq::empty(),
                selected: 0,
                provider_id: Seq::empty(),
                base_url: Seq::empty(),
                api_key: Seq::empty(),
                model_name: Seq::empty(),
                providers: existing_providers@,
            }),
    {
        AddModelForm {
            step: AddModelStep::SelectProvider,
            input: LineEdit::new(),
            error_msg: String::new(),
            selected_index: 0,
            provider_id: String::new(),
            base_url: String::new(),
            api_key: String::new(),
            model_name: String::new(),
            provider_options: existing_providers,
        }
    }

    pub fn step(&self) -> (s: AddModelStep)
        ensures
            s == self@.step,
    {
        self.step
    }

    /// The text in the input field.
    pub fn buffer(&self) -> (s: String)
        ensures
            s@ == self@.input.text,
    {
        self.input.text()
    }

    /// The cursor of the input field, as a byte offset.
    pub fn cursor(&self) -> (b: usize)
        requires
            self.wf(),
        ensures
            b == byte_at(self@.input.text, self@.input.cursor),
    {
        self.input.byte_cursor()
    }

    pub fn error_msg(&self) -> (s: &str)
        ensures
            s@ == self@.error,
    {
        self.error_msg.as_str()
    }

    /// Shows `msg` under the form (a failure to save, say).
    pub fn set_error_msg(&mut self, msg: String)
        ensures
            final(self)@ == (AddModelView { error: msg@, ..old(self)@ }),
            old(self).wf() ==> final(self).wf(),
    {
        self.error_msg = msg;
    }

    pub fn selected_index(&self) -> (i: usize)
        ensures
            i == self@.selected,
    {
        self.selected_index
    }

    pub fn provider_id(&self) -> (s: &str)
        ensures
            s@ == self@.provider_id,
    {
        self.provider_id.as_str()
    }

    pub fn base_url(&self) -> (s: &str)
        ensures
            s@ == self@.base_url,
    {
        self.base_url.as_str()
    }

    pub fn provider_options(&self) -> (p: &[ProviderInfo])
        ensures
            p@ == self@.providers,
    {
        self.provider_options.as_slice()
    }

    /// Takes a pasted text (see `AddModelView::after_paste`).
    pub fn handle_paste(&mut self, text: &str)
        requires
            old(self).wf(),
            blen(old(self)@.input.text) + blen(text@) <= usize::MAX,
        ensures
            final(self).wf(),
            final(self)@ == old(self)@.after_paste(text@),
    {
        if self.step == AddModelStep::SelectProvider {
            return ;
        }
        let clean = strip_line_breaks(text);
        proof {
            lemma_single_line_blen(text@);
        }
        self.input.insert_chars(&clean);
        self.error_msg = String::new();
    }

    /// Handles a key (see `AddModelView::after_key`). Esc gives `Cancel`;
    /// Enter on a valid context window gives the model to save, with the
    /// endpoint and key only for a provider created here (one whose key was
    /// typed).
    pub fn handle_key(&mut self, key: &KeyEvent) -> (r: AddModelOutcome)
        requires
            old(self).wf(),
            key.code matches KeyCode::Char(c) ==> blen(old(self)@.input.text) + char_len(c)
                <= usize::MAX,
        ensures
            final(self).wf(),
            final(self)@ == old(self)@.after_key(key.code),
            (r is Cancel) <==> key.code == KeyCode::Esc,
            (r is Save) <==> old(self)@.saves_on(key.code),
            r matches AddModelOutcome::Save(m) ==> {
                let v = old(self)@;
                let fresh = v.api_key.len() > 0;
                &&& m.provider_id@ == v.provider_id
                &&& m.model_name@ == v.model_name
                &&& Some(m.context_window) == context_window_of(v.input.text)
                &&& (m.base_url matches Some(b) ==> fresh && b@ == v.base_url)
                &&& (m.base_url is None ==> !fresh)
                &&& (m.api_key matches Some(k) ==> fresh && k@ == v.api_key)
                &&& (m.api_key is None ==> !fresh)
            },
    {
        if key.code == KeyCode::Esc {
            return AddModelOutcome::Cancel;
        }
        self.error_msg = String::new();
        let n = self.provider_options.len();
        match self.step {
            AddModelStep::SelectProvider => {
                match key.code {
                    KeyCode::Up => {
                        if self.selected_index > 0 {
                            self.selected_index = self.selected_index - 1;
                        }
                    },
                    KeyCode::Down => {
                        if self.selected_index < n {
                            self.selected_index = self.selected_index + 1;
                        }
                    },
                    KeyCode::Enter => {
                        if self.selected_index < n {
                            let p = &self.provider_options[self.selected_index];
                            self.provider_id = p.id.clone();
                            self.base_url = p.base_url.clone();
                            self.api_key = String::new();
                            self.step = AddModelStep::InputModelName;
                            self.input.clear();
                        } else {
                            self.step = AddModelStep::InputProviderName;
                            self.input.clear();
                        }
                    },
                    _ => {},
                }
                AddModelOutcome::Stay
            },
            AddModelStep::InputContextWindow => {
                if key.code == KeyCode::Enter {
                    let window = if self.input.is_empty() {
                        Some(DEFAULT_CONTEXT_WINDOW)
                    } else {
                        let t = chars_of(self.input.text().as_str());
                        parse_u32(&t)
                    };
                    match window {
                        None => {
                            self.error_msg = FormError::InvalidNumber.message();
                            AddModelOutcome::Stay
                        },
                        Some(cw) => {
                            let fresh = !self.api_key.as_str().is_empty();
                            AddModelOutcome::Save(
                                NewModel {
                                    provider_id: self.provider_id.clone(),
                                    base_url: if fresh {
                                        Some(self.base_url.clone())
                                    } else {
                                        None
                                    },
                                    api_key: if fresh {
                                        Some(self.api_key.clone())
                                    } else {
                                        None
                                    },
                                    model_name: self.model_name.clone(),
                                    context_window: cw,
                                },
                            )
                        },
                    }
                } else {
                    self.input.edit(key.code);
                    AddModelOutcome::Stay
                }
            },
            _ => {
                if key.code == KeyCode::Enter {
                    if self.input.is_empty() {
                        let e = match self.step {
                            AddModelStep::InputProviderName => FormError::EmptyProviderName,
                            AddModelStep::InputBaseUrl => FormError::EmptyBaseUrl,
                            AddModelStep::InputApiKey => FormError::EmptyApiKey,
                            _ => FormError::EmptyModelName,
                        };
                        self.error_msg = e.message();
                    } else {
                        let t = self.input.text();
                        match self.step {
                            AddModelStep::InputProviderName => {
                                self.provider_id = t;
                                self.step = AddModelStep::InputBaseUrl;
                                self.input.clear();
                            },
                            AddModelStep::InputBaseUrl => {
                                self.base_url = t;
                                self.step = AddModelStep::InputApiKey;
                                self.input.clear();
                            },
                            AddModelStep::InputApiKey => {
                                self.api_key = t;
                                self.step = AddModelStep::InputModelName;
                                self.input.clear();
                            },
                            _ => {
                                self.model_name = t;
                                self.step = AddModelStep::InputContextWindow;
                                self.input.set("131072");
                            },
                        }
                    }
                } else {
                    self.input.edit(key.code);
                }
                AddModelOutcome::Stay
            },
        }
    }
}

/// Dropping line breaks does not lengthen the UTF-8 encoding.
pub proof fn lemma_single_line_blen(s: Seq<char>)
    ensures
        blen(single_line(s)) <= blen(s),
    decreases s.len(),
{
    if s.len() > 0 {
        lemma_single_line_blen(s.drop_last());
        let init = s.drop_last();
        assert(s =~= init + seq![s.last()]);
        crate::text::lemma_blen_append(init, seq![s.last()]);
        crate::text::lemma_blen_single(s.last());
        if !crate::line_edit::is_line_break(s.last()) {
            let r = single_line(init);
            assert(r.push(s.last()) =~= r + seq![s.last()]);
            crate::text::lemma_blen_append(r, seq![s.last()]);
        }
    }
}

// ===== The model picker =====

/// What a key in the model picker asks for. The list shows the models and,
/// last, an entry to add one.
#[derive(Debug, Clone, Copy, PartialEq, Eq, Structural)]
pub enum ModelPickerAction {
    Close,
    /// Use the model at this index.
    Switch(usize),
    AddModel,
}

/// Handles a key in the model picker over `model_count` models: the arrows
/// move over the models and the add entry, Enter picks, Esc closes.
pub fn model_picker_key(key: &KeyEvent, selected_index: &mut usize, model_count: usize) -> (r:
    Option<ModelPickerAction>)
    ensures
        match key.code {
            KeyCode::Esc => r == Some(ModelPickerAction::Close) && *final(selected_index) == *old(
                selected_index,
            ),
            KeyCode::Up => r is None && *final(selected_index) == (if *old(selected_index) > 0 {
                *old(selected_index) - 1
            } else {
                *old(selected_index) as int
            }),
            KeyCode::Down => r is None && *final(selected_index) == (if *old(selected_index)
                < model_count {
                *old(selected_index) + 1
            } else {
                *old(selected_index) as int
            }),
            KeyCode::Enter => *final(selected_index) == *old(selected_index) && r == Some(
                if *old(selected_index) < model_count {
                    ModelPickerAction::Switch(*old(selected_index))
                } else {
                    ModelPickerAction::AddModel
                },
            ),
            _ => r is None && *final(selected_index) == *old(selected_index),
        },
{
    match key.code {
        KeyCode::Esc => Some(ModelPickerAction::Close),
        KeyCode::Up => {
            if *selected_index > 0 {
                *selected_index = *selected_index - 1;
            }
            None
        },
        KeyCode::Down => {
            if *selected_index < model_count {
                *selected_index = *selected_index + 1;
            }
            None
        },
        KeyCode::Enter => {
            if *selected_index < model_count {
                Some(ModelPickerAction::Switch(*selected_index))
            } else {
                Some(ModelPickerAction::AddModel)
            }
        },
        _ => None,
    }
}

/// The row selected when the picker opens: the current model's, or the
/// first when it is not listed.
pub fn initial_model_index(displays: &[String], current: &str) -> (i: usize)
    ensures
        (i < displays@.len() && displays@[i as int]@ == current@ && forall|j: int|
            0 <= j < i ==> #[trigger] displays@[j]@ != current@) || (i == 0 && forall|j: int|
            0 <= j < displays@.len() ==> #[trigger] displays@[j]@ != current@),
{
    let mut i: usize = 0;
    while i < displays.len() && !crate::text::str_eq(displays[i].as_str(), current)
        invariant
            i <= displays@.len(),
            forall|j: int| 0 <= j < i ==> #[trigger] displays@[j]@ != current@,
        decreases displays@.len() - i,
    {
        i = i + 1;
    }
    if i < displays.len() {
        i
    } else {
        0
    }
}

} // verus!

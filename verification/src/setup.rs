//! The first-run setup wizard: choose a predefined provider (then its API
//! key and a model) or describe a custom one (name, endpoint, key, model,
//! context window). Esc steps back, restoring what was typed there.

use vstd::prelude::*;

use crate::keys::{KeyCode, KeyEvent};
use crate::line_edit::{parse_u32, single_line, strip_line_breaks, LineEdit, LineView};
use crate::model_picker::{
    default_window_text, error_text, lemma_single_line_blen, FormError,
};
use crate::text::{blen, byte_at, char_len, chars_of};
use crate::line_edit::parsed_u32;

verus! {

/// The step the setup wizard is at.
#[derive(Debug, Clone, Copy, PartialEq, Eq, Structural)]
pub enum SetupStep {
    Welcome,
    SelectProvider,
    PredefinedInputApiKey,
    PredefinedSelectModel,
    CustomInputProviderName,
    CustomInputBaseUrl,
    CustomInputApiKey,
    CustomInputModelName,
    CustomInputContextWindow,
    Done,
}

/// Steps at which the wizard reads text.
pub open spec fn is_text_step(s: SetupStep) -> bool {
    match s {
        SetupStep::PredefinedInputApiKey | SetupStep::CustomInputProviderName
        | SetupStep::CustomInputBaseUrl | SetupStep::CustomInputApiKey
        | SetupStep::CustomInputModelName | SetupStep::CustomInputContextWindow => true,
        _ => false,
    }
}

/// A provider the wizard offers ready-made: its id and the ids of its models.
#[derive(Debug, Clone)]
pub struct PredefinedProvider {
    pub id: String,
    pub model_ids: Vec<String>,
}

/// Every offered provider has a model to choose.
pub open spec fn models_present(providers: Seq<PredefinedProvider>) -> bool {
    forall|i: int| 0 <= i < providers.len() ==> #[trigger] providers[i].model_ids.len() > 0
}

/// What a key did to the wizard: nothing beyond it, asking to quit the
/// program (Esc on the welcome page), or finishing (Enter on the summary),
/// after which the caller builds and saves the configuration.
#[derive(Debug, Clone, Copy, PartialEq, Eq, Structural)]
pub enum SetupOutcome {
    Stay,
    Quit,
    Finish,
}

/// The wizard as plain values.
pub struct SetupView {
    pub step: SetupStep,
    pub input: LineView,
    pub error: Seq<char>,
    pub selected: int,
    pub provider_index: int,
    pub is_custom: bool,
    pub api_key: Seq<char>,
    pub provider_id: Seq<char>,
    pub base_url: Seq<char>,
    pub model_id: Seq<char>,
    pub context_window: Seq<char>,
    pub append_only: bool,
}

impl SetupView {
    /// The invariant, given the offered providers.
    pub open spec fn wf(self, providers: Seq<PredefinedProvider>) -> bool {
        let n = providers.len() as int;
        &&& self.input.wf()
        &&& !is_text_step(self.step) ==> self.input == LineView::empty()
        &&& self.step == SetupStep::SelectProvider ==> 0 <= self.selected <= n
        &&& self.step == SetupStep::PredefinedInputApiKey ==> 0 <= self.provider_index < n
        &&& self.step == SetupStep::PredefinedSelectModel ==> {
            &&& 0 <= self.provider_index < n
            &&& 0 <= self.selected < providers[self.provider_index].model_ids.len()
        }
        &&& 0 <= self.provider_index <= n
        &&& self.selected >= 0
    }

    /// Esc: one step back, the field refilled with what was entered there.
    /// On the welcome page nothing changes (the caller quits).
    pub open spec fn back(self, n: int) -> SetupView {
        match self.step {
            SetupStep::Welcome => self,
            SetupStep::SelectProvider => SetupView {
                step: SetupStep::Welcome,
                input: LineView::empty(),
                ..self
            },
            SetupStep::PredefinedInputApiKey => SetupView {
                step: SetupStep::SelectProvider,
                selected: self.provider_index,
                input: LineView::empty(),
                ..self
            },
            SetupStep::PredefinedSelectModel => SetupView {
                step: SetupStep::PredefinedInputApiKey,
                input: LineView::at_end(self.api_key),
                ..self
            },
            SetupStep::CustomInputProviderName => SetupView {
                step: SetupStep::SelectProvider,
                selected: n,
                input: LineView::empty(),
                ..self
            },
            SetupStep::CustomInputBaseUrl => SetupView {
                step: SetupStep::CustomInputProviderName,
                input: LineView::at_end(self.provider_id),
                ..self
            },
            SetupStep::CustomInputApiKey => SetupView {
                step: SetupStep::CustomInputBaseUrl,
                input: LineView::at_end(self.base_url),
                ..self
            },
            SetupStep::CustomInputModelName => SetupView {
                step: SetupStep::CustomInputApiKey,
                input: LineView::at_end(self.api_key),
                ..self
            },
            SetupStep::CustomInputContextWindow => SetupView {
                step: SetupStep::CustomInputModelName,
                input: LineView::at_end(self.model_id),
                ..self
            },
            SetupStep::Done => SetupView {
                step: SetupStep::SelectProvider,
                selected: if self.is_custom {
                    n
                } else {
                    self.provider_index
                },
                ..self
            },
        }
    }

    /// The refusal for Enter at a text step, if any: an empty field (the
    /// context window may be empty), or a context window that is no number.
    pub open spec fn refusal(self) -> Option<FormError> {
        let t = self.input.text;
        if t.len() == 0 {
            match self.step {
                SetupStep::PredefinedInputApiKey | SetupStep::CustomInputApiKey => Some(
                    FormError::EmptyApiKey,
                ),
                SetupStep::CustomInputProviderName => Some(FormError::EmptyProviderName),
                SetupStep::CustomInputBaseUrl => Some(FormError::EmptyBaseUrl),
                SetupStep::CustomInputModelName => Some(FormError::EmptyModelName),
                _ => None,
            }
        } else if self.step == SetupStep::CustomInputContextWindow && parsed_u32(t) is None {
            Some(FormError::InvalidNumber)
        } else {
            None
        }
    }

    /// Enter at a text step that accepts the field: the value is kept and
    /// the next step comes up.
    pub open spec fn advanced(self) -> SetupView {
        let t = self.input.text;
        match self.step {
            SetupStep::PredefinedInputApiKey => SetupView {
                api_key: t,
                step: SetupStep::PredefinedSelectModel,
                selected: 0,
                input: LineView::empty(),
                ..self
            },
            SetupStep::CustomInputProviderName => SetupView {
                provider_id: t,
                step: SetupStep::CustomInputBaseUrl,
                input: LineView::empty(),
                ..self
            },
            SetupStep::CustomInputBaseUrl => SetupView {
                base_url: t,
                step: SetupStep::CustomInputApiKey,
                input: LineView::empty(),
                ..self
            },
            SetupStep::CustomInputApiKey => SetupView {
                api_key: t,
                step: SetupStep::CustomInputModelName,
                input: LineView::empty(),
                ..self
            },
            SetupStep::CustomInputModelName => SetupView {
                model_id: t,
                step: SetupStep::CustomInputContextWindow,
                input: LineView::at_end(default_window_text()),
                ..self
            },
            SetupStep::CustomInputContextWindow => SetupView {
                context_window: t,
                step: SetupStep::Done,
                input: LineView::empty(),
                ..self
            },
            _ => self,
        }
    }

    /// The wizard after `code`, the message cleared first.
    pub open spec fn after_key(self, code: KeyCode, providers: Seq<PredefinedProvider>) -> SetupView {
        let n = providers.len() as int;
        let v = SetupView { error: Seq::empty(), ..self };
        if code == KeyCode::Esc {
            v.back(n)
        } else {
            match self.step {
                SetupStep::Welcome => if code == KeyCode::Enter {
                    SetupView { step: SetupStep::SelectProvider, selected: 0, ..v }
                } else {
                    v
                },
                SetupStep::SelectProvider => match code {
                    KeyCode::Up => if v.selected > 0 {
                        SetupView { selected: v.selected - 1, ..v }
                    } else {
                        v
                    },
                    KeyCode::Down => if v.selected + 1 < n + 1 {
                        SetupView { selected: v.selected + 1, ..v }
                    } else {
                        v
                    },
                    KeyCode::Enter => if v.selected < n {
                        SetupView {
                            provider_index: v.selected,
                            is_custom: false,
                            step: SetupStep::PredefinedInputApiKey,
                            input: LineView::empty(),
                            ..v
                        }
                    } else {
                        SetupView {
                            is_custom: true,
                            step: SetupStep::CustomInputProviderName,
                            input: LineView::empty(),
                            ..v
                        }
                    },
                    _ => v,
                },
                SetupStep::PredefinedSelectModel => {
                    let models = providers[v.provider_index].model_ids;
                    match code {
                        KeyCode::Up => if v.selected > 0 {
                            SetupView { selected: v.selected - 1, ..v }
                        } else {
                            v
                        },
                        KeyCode::Down => if v.selected + 1 < models.len() {
                            SetupView { selected: v.selected + 1, ..v }
                        } else {
                            v
                        },
                        KeyCode::Enter => SetupView {
                            model_id: models[v.selected]@,
                            step: SetupStep::Done,
                            ..v
                        },
                        _ => v,
                    }
                },
                SetupStep::Done => v,
                _ => if code == KeyCode::Enter {
                    match v.refusal() {
                        Some(e) => SetupView { error: error_text(e), ..v },
                        None => v.advanced(),
                    }
                } else {
                    SetupView { input: v.input.edited(code), ..v }
                },
            }
        }
    }

    /// A pasted text goes into the field without its line breaks at a text
    /// step, and is dropped elsewhere.
    pub open spec fn after_paste(self, t: Seq<char>) -> SetupView {
        if is_text_step(self.step) {
            SetupView { input: self.input.inserted(single_line(t)), error: Seq::empty(), ..self }
        } else {
            self
        }
    }
}

/// The setup wizard.
pub struct SetupForm {
    step: SetupStep,
    input: LineEdit,
    error_msg: String,
    selected_index: usize,
    provider_index: usize,
    is_custom: bool,
    api_key: String,
    provider_id: String,
    base_url: String,
    model_id: String,
    context_window: String,
    append_only: bool,
}

impl View for SetupForm {
    type V = SetupView;

    closed spec fn view(&self) -> SetupView {
        SetupView {
            step: self.step,
            input: self.input@,
            error: self.error_msg@,
            selected: self.selected_index as int,
            provider_index: self.provider_index as int,
            is_custom: self.is_custom,
            api_key: self.api_key@,
            provider_id: self.provider_id@,
            base_url: self.base_url@,
            model_id: self.model_id@,
            context_window: self.context_window@,
            append_only: self.append_only,
        }
    }
}

impl SetupForm {
    /// A wizard at its welcome page, with nothing entered.
    pub fn new() -> (f: SetupForm)
        ensures
            f@ == (SetupView {
                step: SetupStep::Welcome,
                input: LineView::empty(),
                error: Seq::empty(),
                selected: 0,
                provider_index: 0,
                is_custom: false,
                api_key: Seq::empty(),
                provider_id: Seq::empty(),
                base_url: Seq::empty(),
                model_id: Seq::empty(),
                context_window: Seq::empty(),
                append_only: false,
            }),
            forall|p: Seq<PredefinedProvider>| f@.wf(p),
    {
        SetupForm {
            step: SetupStep::Welcome,
            input: LineEdit::new(),
            error_msg: String::new(),
            selected_index: 0,
            provider_index: 0,
            is_custom: false,
            api_key: String::new(),
            provider_id: String::new(),
            base_url: String::new(),
            model_id: String::new(),
            context_window: String::new(),
            append_only: false,
        }
    }

    /// A wizard that asks only for the API key of the offered provider
    /// `provider_id` (the first one if none has that id), and adds it to
    /// the existing configuration when done.
    pub fn for_provider_key(providers: &[PredefinedProvider], provider_id: &str) -> (f: SetupForm)
        requires
            providers@.len() > 0,
        ensures
            f@.wf(providers@),
            f@.step == SetupStep::PredefinedInputApiKey,
            f@.append_only,
            f@.provider_id == provider_id@,
            f@.input == LineView::empty(),
            0 <= f@.provider_index < providers@.len(),
            providers@[f@.provider_index].id@ == provider_id@ || (f@.provider_index == 0
                && forall|i: int|
                0 <= i < providers@.len() ==> #[trigger] providers@[i].id@ != provider_id@),
            forall|i: int|
                0 <= i < f@.provider_index ==> #[trigger] providers@[i].id@ != provider_id@,
    {
        let mut f = SetupForm::new();
        let mut idx: usize = 0;
        while idx < providers.len() && !crate::text::str_eq(providers[idx].id.as_str(), provider_id)
            invariant
                idx <= providers@.len(),
                forall|i: int| 0 <= i < idx ==> #[trigger] providers@[i].id@ != provider_id@,
            decreases providers@.len() - idx,
        {
            idx = idx + 1;
        }
        f.step = SetupStep::PredefinedInputApiKey;
        f.provider_index = if idx < providers.len() {
            idx
        } else {
            0
        };
        f.provider_id = provider_id.to_owned();
        f.append_only = true;
        f
    }

    pub fn step(&self) -> (s: SetupStep)
        ensures
            s == self@.step,
    {
        self.step
    }

    /// The text in the input field.
    pub fn buffer(&self) -> (s: String)
        ensures
            s@ == self@.input.text,
    {
        self.input.text()
    }

    /// The cursor of the input field, as a byte offset.
    pub fn cursor(&self) -> (b: usize)
        requires
            self@.input.wf(),
        ensures
            b == byte_at(self@.input.text, self@.input.cursor),
    {
        self.input.byte_cursor()
    }

    pub fn error_msg(&self) -> (s: &str)
        ensures
            s@ == self@.error,
    {
        self.error_msg.as_str()
    }

    /// Shows `msg` in the wizard (a failure to save, say).
    pub fn set_error_msg(&mut self, msg: String)
        ensures
            final(self)@ == (SetupView { error: msg@, ..old(self)@ }),
    {
        self.error_msg = msg;
    }

    pub fn selected_index(&self) -> (i: usize)
        ensures
            i == self@.selected,
    {
        self.selected_index
    }

    pub fn provider_index(&self) -> (i: usize)
        ensures
            i == self@.provider_index,
    {
        self.provider_index
    }

    pub fn is_custom(&self) -> (b: bool)
        ensures
            b == self@.is_custom,
    {
        self.is_custom
    }

    pub fn append_only(&self) -> (b: bool)
        ensures
            b == self@.append_only,
    {
        self.append_only
    }

    pub fn api_key(&self) -> (s: &str)
        ensures
            s@ == self@.api_key,
    {
        self.api_key.as_str()
    }

    pub fn provider_id(&self) -> (s: &str)
        ensures
            s@ == self@.provider_id,
    {
        self.provider_id.as_str()
    }

    pub fn base_url(&self) -> (s: &str)
        ensures
            s@ == self@.base_url,
    {
        self.base_url.as_str()
    }

    pub fn model_id(&self) -> (s: &str)
        ensures
            s@ == self@.model_id,
    {
        self.model_id.as_str()
    }

    pub fn context_window(&self) -> (s: &str)
        ensures
            s@ == self@.context_window,
    {
        self.context_window.as_str()
    }

    /// Takes a pasted text (see `SetupView::after_paste`).
    pub fn handle_paste(&mut self, text: &str)
        requires
            old(self)@.input.wf(),
            blen(old(self)@.input.text) + blen(text@) <= usize::MAX,
        ensures
            final(self)@ == old(self)@.after_paste(text@),
            forall|p: Seq<PredefinedProvider>| old(self)@.wf(p) ==> final(self)@.wf(p),
    {
        let text_step = match self.step {
            SetupStep::PredefinedInputApiKey | SetupStep::CustomInputProviderName
            | SetupStep::CustomInputBaseUrl | SetupStep::CustomInputApiKey
            | SetupStep::CustomInputModelName | SetupStep::CustomInputContextWindow => true,
            _ => false,
        };
        if !text_step {
            return ;
        }
        let clean = strip_line_breaks(text);
        proof {
            lemma_single_line_blen(text@);
        }
        self.input.insert_chars(&clean);
        self.error_msg = String::new();
    }

    /// Handles a key (see `SetupView::after_key`): Esc on the welcome page
    /// gives `Quit`, Enter on the summary gives `Finish`.
    pub fn handle_key(&mut self, key: &KeyEvent, providers: &[PredefinedProvider]) -> (r:
        SetupOutcome)
        requires
            old(self)@.wf(providers@),
            models_present(providers@),
            key.code matches KeyCode::Char(c) ==> blen(old(self)@.input.text) + char_len(c)
                <= usize::MAX,
        ensures
            final(self)@.wf(providers@),
            final(self)@ == old(self)@.after_key(key.code, providers@),
            r == (if key.code == KeyCode::Esc && old(self)@.step == SetupStep::Welcome {
                SetupOutcome::Quit
            } else if key.code == KeyCode::Enter && old(self)@.step == SetupStep::Done {
                SetupOutcome::Finish
            } else {
                SetupOutcome::Stay
            }),
    {
        let n = providers.len();
        self.error_msg = String::new();
        if key.code == KeyCode::Esc {
            match self.step {
                SetupStep::Welcome => {
                    return SetupOutcome::Quit;
                },
                SetupStep::SelectProvider => {
                    self.step = SetupStep::Welcome;
                    self.input.clear();
                },
                SetupStep::PredefinedInputApiKey => {
                    self.step = SetupStep::SelectProvider;
                    self.selected_index = self.provider_index;
                    self.input.clear();
                },
                SetupStep::PredefinedSelectModel => {
                    self.step = SetupStep::PredefinedInputApiKey;
                    self.input.set(self.api_key.as_str());
                },
                SetupStep::CustomInputProviderName => {
                    self.step = SetupStep::SelectProvider;
                    self.selected_index = n;
                    self.input.clear();
                },
                SetupStep::CustomInputBaseUrl => {
                    self.step = SetupStep::CustomInputProviderName;
                    self.input.set(self.provider_id.as_str());
                },
                SetupStep::CustomInputApiKey => {
                    self.step = SetupStep::CustomInputBaseUrl;
                    self.input.set(self.base_url.as_str());
                },
                SetupStep::CustomInputModelName => {
                    self.step = SetupStep::CustomInputApiKey;
                    self.input.set(self.api_key.as_str());
                },
                SetupStep::CustomInputContextWindow => {
                    self.step = SetupStep::CustomInputModelName;
                    self.input.set(self.model_id.as_str());
                },
                SetupStep::Done => {
                    self.step = SetupStep::SelectProvider;
                    self.selected_index = if self.is_custom {
                        n
                    } else {
                        self.provider_index
                    };
                },
            }
            return SetupOutcome::Stay;
        }
        match self.step {
            SetupStep::Welcome => {
                if key.code == KeyCode::Enter {
                    self.step = SetupStep::SelectProvider;
                    self.selected_index = 0;
                }
                SetupOutcome::Stay
            },
            SetupStep::SelectProvider => {
                match key.code {
                    KeyCode::Up => {
                        if self.selected_index > 0 {
                            self.selected_index = self.selected_index - 1;
                        }
                    },
                    KeyCode::Down => {
                        if self.selected_index < n {
                            self.selected_index = self.selected_index + 1;
                        }
                    },
                    KeyCode::Enter => {
                        if self.selected_index < n {
                            self.provider_index = self.selected_index;
                            self.is_custom = false;
                            self.step = SetupStep::PredefinedInputApiKey;
                        } else {
                            self.is_custom = true;
                            self.step = SetupStep::CustomInputProviderName;
                        }
                        self.input.clear();
                    },
                    _ => {},
                }
                SetupOutcome::Stay
            },
            SetupStep::PredefinedSelectModel => {
                let models = &providers[self.provider_index].model_ids;
                match key.code {
                    KeyCode::Up => {
                        if self.selected_index > 0 {
                            self.selected_index = self.selected_index - 1;
                        }
                    },
                    KeyCode::Down => {
                        if self.selected_index + 1 < models.len() {
                            self.selected_index = self.selected_index + 1;
                        }
                    },
                    KeyCode::Enter => {
                        self.model_id = models[self.selected_index].clone();
                        self.step = SetupStep::Done;
                    },
                    _ => {},
                }
                SetupOutcome::Stay
            },
            SetupStep::Done => {
                if key.code == KeyCode::Enter {
                    SetupOutcome::Finish
                } else {
                    SetupOutcome::Stay
                }
            },
            _ => {
                if key.code != KeyCode::Enter {
                    self.input.edit(key.code);
                    return SetupOutcome::Stay;
                }
                let is_context_window = self.step == SetupStep::CustomInputContextWindow;
                if self.input.is_empty() && !is_context_window {
                    let e = match self.step {
                        SetupStep::CustomInputProviderName => FormError::EmptyProviderName,
                        SetupStep::CustomInputBaseUrl => FormError::EmptyBaseUrl,
                        SetupStep::CustomInputModelName => FormError::EmptyModelName,
                        _ => FormError::EmptyApiKey,
                    };
                    self.error_msg = e.message();
                    return SetupOutcome::Stay;
                }
                if is_context_window && !self.input.is_empty() {
                    let t = chars_of(self.input.text().as_str());
                    if parse_u32(&t).is_none() {
                        self.error_msg = FormError::InvalidNumber.message();
                        return SetupOutcome::Stay;
                    }
                }
                let t = self.input.text();
                match self.step {
                    SetupStep::PredefinedInputApiKey => {
                        self.api_key = t;
                        self.step = SetupStep::PredefinedSelectModel;
                        self.selected_index = 0;
                        self.input.clear();
                    },
                    SetupStep::CustomInputProviderName => {
                        self.provider_id = t;
                        self.step = SetupStep::CustomInputBaseUrl;
                        self.input.clear();
                    },
                    SetupStep::CustomInputBaseUrl => {
                        self.base_url = t;
                        self.step = SetupStep::CustomInputApiKey;
                        self.input.clear();
                    },
                    SetupStep::CustomInputApiKey => {
                        self.api_key = t;
                        self.step = SetupStep::CustomInputModelName;
                        self.input.clear();
                    },
                    SetupStep::CustomInputModelName => {
                        self.model_id = t;
                        self.step = SetupStep::CustomInputContextWindow;
                        self.input.set("131072");
                    },
                    _ => {
                        self.context_window = t;
                        self.step = SetupStep::Done;
                        self.input.clear();
                    },
                }
                SetupOutcome::Stay
            },
        }
    }
}

} // verus!

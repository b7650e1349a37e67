//! What the ask-user dialog shows: its size and place, the tab row, the
//! rows of the current question (or of the answers on the confirm tab),
//! the help line, and where the terminal cursor goes while an answer is
//! typed. Text is wrapped the way the `textwrap` crate wraps it.

use vstd::prelude::*;
use crate::ask_user::{QuestionInfo, QuestionOption};
use crate::json_args::opt_view;
use crate::mcp_view::{lines_view, selector, DialogRect, LineTone, PanelLine};
use crate::model_picker::{wrap_input, wrapped};
use crate::text::{chars_of, decimal, decimal_chars, extend_chars, string_of, trim, trim_chars};
use crate::width::{str_width, unicode_str_width};

verus! {

/// What `textwrap::wrap(text, width)` gives with its default options, each
/// line as its characters.
pub uninterp spec fn textwrap_lines(text: Seq<char>, width: nat) -> Seq<Seq<char>>;

/// `textwrap::wrap(text, width)` with default options, each line made an
/// owned string. Claims only that the lines are the named value
/// `textwrap_lines(text@, width)`; it is called with widths of at least one.
#[verifier::external_body]
fn wrap_text(text: &str, width: usize) -> (r: Vec<String>)
    requires
        width > 0,
    ensures
        r@.map_values(|l: String| l@) == textwrap_lines(text@, width as nat),
{
    textwrap::wrap(text, width).into_iter().map(|l| l.into_owned()).collect()
}

/// A count that stops at `usize::MAX`.
pub open spec fn sadd(a: nat, b: nat) -> nat {
    if a + b > usize::MAX {
        usize::MAX as nat
    } else {
        a + b
    }
}

/// The dialog is between 50 and 80 cells wide.
pub open spec fn ask_width(area_w: nat) -> nat {
    if area_w < 50 {
        50
    } else if area_w > 80 {
        80
    } else {
        area_w
    }
}

/// The columns the question text is wrapped to.
pub open spec fn ask_inner(area_w: nat) -> nat {
    (ask_width(area_w) - 4) as nat
}

/// The columns inside the border.
pub open spec fn ask_content_width(area_w: nat) -> nat {
    (ask_width(area_w) - 2) as nat
}

/// How an answer reads on the confirm tab.
pub open spec fn answer_text(a: Option<String>) -> Seq<char> {
    match a {
        Some(s) => s@,
        None => "(not answered)"@,
    }
}

/// A question's row on the confirm tab: its header and its answer.
pub open spec fn confirm_text(q: QuestionInfo, a: Option<String>) -> Seq<char> {
    " "@ + q.header@ + ": "@ + answer_text(a)
}

/// Rows the confirm tab takes for the first `k` questions (at least one
/// each).
pub open spec fn confirm_count(qs: Seq<QuestionInfo>, answers: Seq<Option<String>>, iw: nat, k: int) -> nat
    decreases k,
{
    if k <= 0 || k > qs.len() {
        0
    } else {
        let n = textwrap_lines(confirm_text(qs[k - 1], answers[k - 1]), iw).len();
        sadd(confirm_count(qs, answers, iw, k - 1), if n == 0 {
            1
        } else {
            n
        })
    }
}

/// Rows counted for the first `k` options: the label, and the description
/// indented by two spaces and wrapped five columns narrower.
pub open spec fn options_count(opts: Seq<QuestionOption>, iw: nat, k: int) -> nat
    decreases k,
{
    if k <= 0 || k > opts.len() {
        0
    } else {
        sadd(
            options_count(opts, iw, k - 1),
            sadd(1, textwrap_lines("  "@ + opts[k - 1].description@, (iw - 5) as nat).len()),
        )
    }
}

/// Rows counted for a question: its text, its options, the free-text row,
/// and the rows of the answer being typed.
pub open spec fn question_count(q: QuestionInfo, iw: nat, input: Seq<char>, editing: bool) -> nat {
    let base = sadd(textwrap_lines(q.question@, iw).len(), options_count(q.options@, iw, q.options@.len() as int));
    let edit: nat = if editing {
        let tw: nat = if iw >= 6 {
            (iw - 5) as nat
        } else {
            1
        };
        wrapped(input, 0, tw).0.len()
    } else {
        0
    };
    sadd(sadd(base, 1), edit)
}

/// The dialog's height: the tab row (with several questions), the counted
/// rows, and four rows of border and help, cut to 16 bits.
pub open spec fn ask_height(
    qs: Seq<QuestionInfo>,
    current_tab: int,
    answers: Seq<Option<String>>,
    input: Seq<char>,
    editing: bool,
    area_w: nat,
) -> u16 {
    let single = qs.len() == 1;
    let confirm = !single && current_tab == qs.len();
    let iw = ask_inner(area_w);
    let rows = if confirm {
        confirm_count(qs, answers, iw, qs.len() as int)
    } else {
        question_count(qs[current_tab], iw, input, editing)
    };
    sadd(sadd(if single { 0 } else { 1 }, rows), 4) as u16
}

/// The dialog, centred.
pub open spec fn ask_rect(area_w: nat, area_h: nat, height: u16) -> DialogRect {
    let w = ask_width(area_w);
    DialogRect {
        x: (if area_w >= w {
            (area_w - w) / 2
        } else {
            0
        }) as u16,
        y: (if area_h >= height {
            (area_h - height) / 2
        } else {
            0
        }) as u16,
        width: w as u16,
        height,
    }
}

/// How a tab is drawn.
#[derive(Clone, Copy, PartialEq, Eq, Debug, Structural)]
pub enum TabState {
    Active,
    Answered,
    Open,
}

/// One tab of the tab row.
pub struct TabCell {
    pub text: String,
    pub state: TabState,
}

pub open spec fn tabs_view(v: Seq<TabCell>) -> Seq<(Seq<char>, TabState)> {
    v.map_values(|t: TabCell| (t.text@, t.state))
}

/// With several questions: a tab per question (the current one active,
/// answered ones marked), then the confirm tab. One question has no tabs.
pub open spec fn tab_cells(qs: Seq<QuestionInfo>, answers: Seq<Option<String>>, current_tab: int) -> Seq<
    (Seq<char>, TabState),
> {
    if qs.len() == 1 {
        Seq::empty()
    } else {
        Seq::new(
            qs.len(),
            |i: int|
                (
                    (if i > 0 {
                        " "@
                    } else {
                        Seq::empty()
                    }) + " "@ + qs[i].header@ + " "@,
                    if i == current_tab {
                        TabState::Active
                    } else if answers[i] is Some {
                        TabState::Answered
                    } else {
                        TabState::Open
                    },
                ),
        ).push(
            (
                " Confirm "@,
                if current_tab == qs.len() {
                    TabState::Active
                } else {
                    TabState::Open
                },
            ),
        )
    }
}

/// The rows of the confirm tab: each question's header and answer, in red
/// where it is not answered.
pub open spec fn confirm_rows(qs: Seq<QuestionInfo>, answers: Seq<Option<String>>) -> Seq<
    (Seq<char>, LineTone, bool),
> {
    Seq::new(
        qs.len(),
        |i: int|
            (
                confirm_text(qs[i], answers[i]),
                if answers[i] is Some {
                    LineTone::Plain
                } else {
                    LineTone::Failed
                },
                false,
            ),
    )
}

/// A check mark after a picked answer.
pub open spec fn tick(picked: bool) -> Seq<char> {
    if picked {
        " ✓"@
    } else {
        Seq::empty()
    }
}

/// A picked row that is not under the selection is drawn in green.
pub open spec fn pick_tone(picked: bool, active: bool) -> LineTone {
    if picked && !active {
        LineTone::Picked
    } else {
        LineTone::Plain
    }
}

/// The rows of option `i`: its number and label, then its description
/// wrapped five columns narrower than the question and indented by five.
pub open spec fn option_block(
    o: QuestionOption,
    i: int,
    active: bool,
    picked: bool,
    iw: nat,
) -> Seq<(Seq<char>, LineTone, bool)> {
    seq![
        (
            selector(active) + decimal((i + 1) as nat) + "."@ + " "@ + o.label@ + tick(picked),
            pick_tone(picked, active),
            active,
        ),
    ] + textwrap_lines(o.description@, (iw - 5) as nat).map_values(
        |d: Seq<char>| ("     "@ + d, LineTone::Dim, active),
    )
}

/// The rows of the first `k` options; an option is picked when the answer
/// is its label.
pub open spec fn option_rows(
    opts: Seq<QuestionOption>,
    answer: Option<Seq<char>>,
    selected: int,
    iw: nat,
    k: int,
) -> Seq<(Seq<char>, LineTone, bool)>
    decreases k,
{
    if k <= 0 || k > opts.len() {
        Seq::empty()
    } else {
        option_rows(opts, answer, selected, iw, k - 1) + option_block(
            opts[k - 1],
            k - 1,
            k - 1 == selected,
            answer == Some(opts[k - 1].label@),
            iw,
        )
    }
}

/// The free-text row; it is picked when the answer is the trimmed typed
/// text and that is not empty.
pub open spec fn custom_row(n_opts: nat, active: bool, picked: bool) -> (Seq<char>, LineTone, bool) {
    (
        selector(active) + decimal(n_opts + 1) + "."@ + " Type your own answer"@ + tick(picked),
        pick_tone(picked, active),
        active,
    )
}

/// The rows of the answer being typed, wrapped at `tw` columns: a prompt
/// before the first, and a bar after the text on the cursor's row.
pub open spec fn edit_rows(input: Seq<char>, cursor: int, tw: nat) -> Seq<(Seq<char>, LineTone, bool)> {
    let (w, row, col) = wrapped(input, cursor, tw);
    Seq::new(
        w.len(),
        |li: int|
            (
                (if li == 0 {
                    "   > "@
                } else {
                    "     "@
                }) + w[li] + (if li == row {
                    "|"@
                } else {
                    Seq::empty()
                }),
                LineTone::Plain,
                false,
            ),
    )
}

/// The columns the typed answer wraps to.
pub open spec fn edit_width(area_w: nat) -> nat {
    if ask_content_width(area_w) >= 6 {
        (ask_content_width(area_w) - 5) as nat
    } else {
        1
    }
}

/// Whether the typed answer is the answer given.
pub open spec fn custom_picked(answer: Option<Seq<char>>, input: Seq<char>) -> bool {
    answer == Some(trim(input)) && trim(input).len() > 0
}

/// The rows before the typed answer: the question, its options and the
/// free-text row.
pub open spec fn question_head_rows(
    q: QuestionInfo,
    answer: Option<Seq<char>>,
    selected: int,
    input: Seq<char>,
    iw: nat,
) -> Seq<(Seq<char>, LineTone, bool)> {
    let n = q.options@.len();
    textwrap_lines(q.question@, iw).map_values(|l: Seq<char>| (l, LineTone::Plain, false))
        + option_rows(q.options@, answer, selected, iw, n as int) + seq![
        custom_row(n, selected == n, custom_picked(answer, input)),
    ]
}

/// The rows under the tabs.
pub open spec fn ask_rows(
    qs: Seq<QuestionInfo>,
    current_tab: int,
    selected: int,
    answers: Seq<Option<String>>,
    input: Seq<char>,
    cursor: int,
    editing: bool,
    area_w: nat,
) -> Seq<(Seq<char>, LineTone, bool)> {
    if qs.len() != 1 && current_tab == qs.len() {
        confirm_rows(qs, answers)
    } else {
        let answer = opt_view(answers[current_tab]);
        question_head_rows(qs[current_tab], answer, selected, input, ask_inner(area_w)) + if editing {
            edit_rows(input, cursor, edit_width(area_w))
        } else {
            Seq::empty()
        }
    }
}

/// The keys the help line lists.
pub open spec fn help_text(confirm: bool, single: bool) -> Seq<char> {
    if confirm {
        "enter=submit  esc=cancel"@
    } else if single {
        "↑↓=select  1-9=quick pick  enter=confirm  esc=cancel"@
    } else {
        "←→=tab  ↑↓=select  1-9=quick pick  enter=confirm  esc=cancel"@
    }
}

/// The help line, centred in `width` columns.
pub open spec fn help_line(text: Seq<char>, width: nat) -> Seq<char> {
    let pad: nat = if width >= unicode_str_width(text) {
        ((width - unicode_str_width(text)) / 2) as nat
    } else {
        0
    };
    Seq::new(pad, |i: int| ' ') + text
}

/// The free-text answer of tab `tab` (empty where there is none).
pub open spec fn tab_input(inputs: Seq<String>, tab: int) -> Seq<char> {
    if 0 <= tab < inputs.len() {
        inputs[tab]@
    } else {
        Seq::empty()
    }
}

/// Where the terminal cursor goes while the answer to question `q` is
/// typed: after the text on the cursor's row, kept inside the dialog.
pub open spec fn question_cursor(
    q: QuestionInfo,
    answer: Option<Seq<char>>,
    selected: int,
    input: Seq<char>,
    cursor: int,
    single: bool,
    area_w: nat,
    rect: DialogRect,
) -> Option<(u16, u16)> {
    let (w, row, col) = wrapped(input, cursor, edit_width(area_w));
    if row >= w.len() {
        None
    } else {
        let idx = (if single {
            0nat
        } else {
            1nat
        }) + question_head_rows(q, answer, selected, input, ask_inner(area_w)).len() + row;
        let cx0 = rect.x + 1;
        let a = cx0 + 5 + (col as u16);
        let b = cx0 + (ask_content_width(area_w) - 1);
        Some(
            (
                (if a < b {
                    a
                } else {
                    b
                }) as u16,
                (rect.y + 1 + (idx as u16)) as u16,
            ),
        )
    }
}

/// Where the terminal cursor goes: while an answer is typed, see
/// `question_cursor`; else nowhere.
pub open spec fn ask_cursor(
    qs: Seq<QuestionInfo>,
    current_tab: int,
    selected: int,
    answers: Seq<Option<String>>,
    input: Seq<char>,
    cursor: int,
    editing: bool,
    area_w: nat,
    rect: DialogRect,
) -> Option<(u16, u16)> {
    if !editing || (qs.len() != 1 && current_tab == qs.len()) {
        None
    } else {
        question_cursor(
            qs[current_tab],
            opt_view(answers[current_tab]),
            selected,
            input,
            cursor,
            qs.len() == 1,
            area_w,
            rect,
        )
    }
}

/// What the ask-user dialog shows.
pub struct AskUserLayout {
    pub dialog: DialogRect,
    pub tabs: Vec<TabCell>,
    pub lines: Vec<PanelLine>,
    pub help: String,
    pub cursor: Option<(u16, u16)>,
}

fn options_count_of(opts: &Vec<QuestionOption>, iw: usize) -> (r: usize)
    requires
        iw >= 6,
    ensures
        r == options_count(opts@, iw as nat, opts@.len() as int),
{
    let mut r: usize = 0;
    let mut k: usize = 0;
    while k < opts.len()
        invariant
            k <= opts@.len(),
            iw >= 6,
            r == options_count(opts@, iw as nat, k as int),
        decreases opts@.len() - k,
    {
        let mut d = chars_of("  ");
        extend_chars(&mut d, &chars_of(opts[k].description.as_str()));
        let ds = string_of(&d);
        let w = wrap_text(ds.as_str(), iw - 5);
        proof {
            assert(w@.map_values(|l: String| l@).len() == w@.len());
        }
        let one = w.len().saturating_add(1);
        r = r.saturating_add(one);
        k = k + 1;
    }
    r
}

fn confirm_count_of(qs: &[QuestionInfo], answers: &[Option<String>], iw: usize) -> (r: usize)
    requires
        iw >= 1,
        answers@.len() >= qs@.len(),
    ensures
        r == confirm_count(qs@, answers@, iw as nat, qs@.len() as int),
{
    let mut r: usize = 0;
    let mut k: usize = 0;
    while k < qs.len()
        invariant
            k <= qs@.len() <= answers@.len(),
            iw >= 1,
            r == confirm_count(qs@, answers@, iw as nat, k as int),
        decreases qs@.len() - k,
    {
        let t = confirm_chars(&qs[k], &answers[k]);
        let w = wrap_text(string_of(&t).as_str(), iw);
        proof {
            assert(w@.map_values(|l: String| l@).len() == w@.len());
        }
        let n = if w.len() == 0 {
            1
        } else {
            w.len()
        };
        r = r.saturating_add(n);
        k = k + 1;
    }
    r
}

fn confirm_chars(q: &QuestionInfo, a: &Option<String>) -> (t: Vec<char>)
    ensures
        t@ == confirm_text(*q, *a),
{
    let mut t = chars_of(" ");
    extend_chars(&mut t, &chars_of(q.header.as_str()));
    extend_chars(&mut t, &chars_of(": "));
    match a {
        Some(s) => extend_chars(&mut t, &chars_of(s.as_str())),
        None => extend_chars(&mut t, &chars_of("(not answered)")),
    }
    assert(t@ =~= confirm_text(*q, *a));
    t
}

fn tab_cells_of(qs: &[QuestionInfo], answers: &[Option<String>], current_tab: usize) -> (v: Vec<TabCell>)
    requires
        answers@.len() >= qs@.len(),
    ensures
        tabs_view(v@) == tab_cells(qs@, answers@, current_tab as int),
{
    let mut v: Vec<TabCell> = Vec::new();
    if qs.len() == 1 {
        proof {
            assert(tabs_view(v@) =~= Seq::<(Seq<char>, TabState)>::empty());
        }
        return v;
    }
    let ghost f = |i: int|
        (
            (if i > 0 {
                " "@
            } else {
                Seq::empty()
            }) + " "@ + qs@[i].header@ + " "@,
            if i == current_tab {
                TabState::Active
            } else if answers@[i] is Some {
                TabState::Answered
            } else {
                TabState::Open
            },
        );
    let mut i: usize = 0;
    while i < qs.len()
        invariant
            i <= qs@.len() <= answers@.len(),
            qs@.len() != 1,
            f == (|i: int|
                (
                    (if i > 0 {
                        " "@
                    } else {
                        Seq::empty()
                    }) + " "@ + qs@[i].header@ + " "@,
                    if i == current_tab {
                        TabState::Active
                    } else if answers@[i] is Some {
                        TabState::Answered
                    } else {
                        TabState::Open
                    },
                )),
            tabs_view(v@) =~= Seq::new(i as nat, f),
        decreases qs@.len() - i,
    {
        let mut t: Vec<char> = if i > 0 {
            chars_of(" ")
        } else {
            Vec::new()
        };
        extend_chars(&mut t, &chars_of(" "));
        extend_chars(&mut t, &chars_of(qs[i].header.as_str()));
        extend_chars(&mut t, &chars_of(" "));
        let state = if i == current_tab {
            TabState::Active
        } else if answers[i].is_some() {
            TabState::Answered
        } else {
            TabState::Open
        };
        let ghost before = tabs_view(v@);
        proof {
            assert(t@ =~= f(i as int).0);
        }
        v.push(TabCell { text: string_of(&t), state });
        proof {
            assert(tabs_view(v@) =~= before.push(f(i as int)));
            assert(tabs_view(v@) =~= Seq::new((i + 1) as nat, f));
        }
        i = i + 1;
    }
    let state = if current_tab == qs.len() {
        TabState::Active
    } else {
        TabState::Open
    };
    let ghost before = tabs_view(v@);
    v.push(TabCell { text: string_of(&chars_of(" Confirm ")), state });
    proof {
        assert(tabs_view(v@) =~= before.push((" Confirm "@, state)));
        assert(tabs_view(v@) =~= tab_cells(qs@, answers@, current_tab as int));
    }
    v
}

fn push_row(out: &mut Vec<PanelLine>, text: Vec<char>, tone: LineTone, sel: bool)
    ensures
        lines_view(final(out)@) == lines_view(old(out)@).push((text@, tone, sel)),
{
    let ghost before = lines_view(out@);
    out.push(PanelLine { text: string_of(&text), tone, selected: sel });
    proof {
        assert(lines_view(out@) =~= before.push((text@, tone, sel)));
    }
}

fn push_confirm_rows(out: &mut Vec<PanelLine>, qs: &[QuestionInfo], answers: &[Option<String>])
    requires
        answers@.len() >= qs@.len(),
    ensures
        lines_view(final(out)@) == lines_view(old(out)@) + confirm_rows(qs@, answers@),
{
    let ghost l0 = lines_view(out@);
    let ghost rows = confirm_rows(qs@, answers@);
    let mut i: usize = 0;
    while i < qs.len()
        invariant
            i <= qs@.len() <= answers@.len(),
            rows == confirm_rows(qs@, answers@),
            lines_view(out@) == l0 + rows.take(i as int),
        decreases qs@.len() - i,
    {
        let t = confirm_chars(&qs[i], &answers[i]);
        let tone = if answers[i].is_some() {
            LineTone::Plain
        } else {
            LineTone::Failed
        };
        push_row(out, t, tone, false);
        proof {
            assert(rows.take(i + 1) =~= rows.take(i as int).push(rows[i as int]));
        }
        i = i + 1;
    }
    proof {
        assert(rows.take(qs@.len() as int) =~= rows);
    }
}

fn same_answer(answer: &Option<String>, t: &[char]) -> (b: bool)
    ensures
        b == (opt_view(*answer) == Some(t@)),
{
    match answer {
        Some(a) => crate::text::chars_eq(&chars_of(a.as_str()), t),
        None => false,
    }
}

fn push_option_block(
    out: &mut Vec<PanelLine>,
    o: &QuestionOption,
    i: usize,
    active: bool,
    picked: bool,
    iw: usize,
)
    requires
        iw >= 6,
        i < usize::MAX,
    ensures
        lines_view(final(out)@) == lines_view(old(out)@) + option_block(*o, i as int, active, picked, iw as nat),
{
    let ghost l0 = lines_view(out@);
    let mut h: Vec<char> = if active {
        chars_of("▸ ")
    } else {
        chars_of("  ")
    };
    extend_chars(&mut h, &decimal_chars(i + 1));
    extend_chars(&mut h, &chars_of("."));
    extend_chars(&mut h, &chars_of(" "));
    extend_chars(&mut h, &chars_of(o.label.as_str()));
    if picked {
        extend_chars(&mut h, &chars_of(" ✓"));
    }
    let tone = if picked && !active {
        LineTone::Picked
    } else {
        LineTone::Plain
    };
    assert(h@ =~= selector(active) + decimal((i + 1) as nat) + "."@ + " "@ + o.label@ + tick(picked));
    let ghost hrow = (h@, tone, active);
    push_row(out, h, tone, active);
    let w = wrap_text(o.description.as_str(), iw - 5);
    let ghost ds = w@.map_values(|l: String| l@);
    let ghost rows = ds.map_values(|d: Seq<char>| ("     "@ + d, LineTone::Dim, active));
    let mut k: usize = 0;
    while k < w.len()
        invariant
            k <= w@.len(),
            ds == w@.map_values(|l: String| l@),
            rows == ds.map_values(|d: Seq<char>| ("     "@ + d, LineTone::Dim, active)),
            lines_view(out@) == l0 + seq![hrow] + rows.take(k as int),
        decreases w@.len() - k,
    {
        let mut c = chars_of("     ");
        extend_chars(&mut c, &chars_of(w[k].as_str()));
        proof {
            assert(c@ == "     "@ + ds[k as int]);
        }
        push_row(out, c, LineTone::Dim, active);
        proof {
            assert(rows.take(k + 1) =~= rows.take(k as int).push(rows[k as int]));
        }
        k = k + 1;
    }
    proof {
        assert(rows.take(w@.len() as int) =~= rows);
        assert(lines_view(out@) =~= l0 + option_block(*o, i as int, active, picked, iw as nat));
    }
}

fn push_option_rows(
    out: &mut Vec<PanelLine>,
    opts: &Vec<QuestionOption>,
    answer: &Option<String>,
    selected: usize,
    iw: usize,
)
    requires
        iw >= 6,
        opts@.len() < usize::MAX,
    ensures
        lines_view(final(out)@) == lines_view(old(out)@) + option_rows(
            opts@,
            opt_view(*answer),
            selected as int,
            iw as nat,
            opts@.len() as int,
        ),
{
    let ghost l0 = lines_view(out@);
    let ghost av = opt_view(*answer);
    let mut k: usize = 0;
    while k < opts.len()
        invariant
            k <= opts@.len() < usize::MAX,
            iw >= 6,
            av == opt_view(*answer),
            lines_view(out@) == l0 + option_rows(opts@, av, selected as int, iw as nat, k as int),
        decreases opts@.len() - k,
    {
        let picked = same_answer(answer, &chars_of(opts[k].label.as_str()));
        push_option_block(out, &opts[k], k, k == selected, picked, iw);
        proof {
            assert(lines_view(out@) =~= l0 + option_rows(opts@, av, selected as int, iw as nat, k + 1));
        }
        k = k + 1;
    }
}

fn push_edit_rows(out: &mut Vec<PanelLine>, input: &str, cursor: usize, tw: usize) -> (r: (
    usize,
    usize,
    usize,
))
    ensures
        lines_view(final(out)@) == lines_view(old(out)@) + edit_rows(input@, cursor as int, tw as nat),
        r.0 == wrapped(input@, cursor as int, tw as nat).1,
        r.1 == wrapped(input@, cursor as int, tw as nat).2,
        r.2 == wrapped(input@, cursor as int, tw as nat).0.len(),
{
    let ghost l0 = lines_view(out@);
    let (w, row, col) = wrap_input(input, cursor, tw);
    let ghost ws = w@.map_values(|l: String| l@);
    let ghost rows = edit_rows(input@, cursor as int, tw as nat);
    assert(rows.len() == w@.len());
    let mut li: usize = 0;
    while li < w.len()
        invariant
            li <= w@.len(),
            ws == w@.map_values(|l: String| l@),
            ws == wrapped(input@, cursor as int, tw as nat).0,
            row == wrapped(input@, cursor as int, tw as nat).1,
            rows == edit_rows(input@, cursor as int, tw as nat),
            rows.len() == w@.len(),
            lines_view(out@) == l0 + rows.take(li as int),
        decreases w@.len() - li,
    {
        let mut c: Vec<char> = if li == 0 {
            chars_of("   > ")
        } else {
            chars_of("     ")
        };
        extend_chars(&mut c, &chars_of(w[li].as_str()));
        if li == row {
            extend_chars(&mut c, &chars_of("|"));
        }
        proof {
            assert(ws[li as int] == w@[li as int]@);
            assert(c@ =~= rows[li as int].0);
        }
        push_row(out, c, LineTone::Plain, false);
        proof {
            assert(rows.take(li + 1) =~= rows.take(li as int).push(rows[li as int]));
        }
        li = li + 1;
    }
    proof {
        assert(rows.take(w@.len() as int) =~= rows);
    }
    (row, col, w.len())
}

fn question_count_of(q: &QuestionInfo, iw: usize, input: &str, editing: bool) -> (r: usize)
    requires
        iw >= 6,
    ensures
        r == question_count(*q, iw as nat, input@, editing),
{
    let qw = wrap_text(q.question.as_str(), iw);
    proof {
        assert(qw@.map_values(|l: String| l@).len() == qw@.len());
    }
    let base = qw.len().saturating_add(options_count_of(&q.options, iw));
    let edit: usize = if editing {
        let (w, _, _) = wrap_input(input, 0, iw - 5);
        proof {
            assert(w@.map_values(|l: String| l@).len() == w@.len());
        }
        w.len()
    } else {
        0
    };
    base.saturating_add(1).saturating_add(edit)
}

fn push_question_head(
    out: &mut Vec<PanelLine>,
    q: &QuestionInfo,
    answer: &Option<String>,
    selected: usize,
    input: &str,
    iw: usize,
)
    requires
        iw >= 6,
        q.options@.len() < usize::MAX,
    ensures
        lines_view(final(out)@) == lines_view(old(out)@) + question_head_rows(
            *q,
            opt_view(*answer),
            selected as int,
            input@,
            iw as nat,
        ),
{
    let ghost l0 = lines_view(out@);
    let qw = wrap_text(q.question.as_str(), iw);
    let ghost ls = qw@.map_values(|l: String| l@);
    let ghost rows = ls.map_values(|l: Seq<char>| (l, LineTone::Plain, false));
    let mut k: usize = 0;
    while k < qw.len()
        invariant
            k <= qw@.len(),
            ls == qw@.map_values(|l: String| l@),
            rows == ls.map_values(|l: Seq<char>| (l, LineTone::Plain, false)),
            lines_view(out@) == l0 + rows.take(k as int),
        decreases qw@.len() - k,
    {
        push_row(out, chars_of(qw[k].as_str()), LineTone::Plain, false);
        proof {
            assert(rows.take(k + 1) =~= rows.take(k as int).push(rows[k as int]));
        }
        k = k + 1;
    }
    proof {
        assert(rows.take(qw@.len() as int) =~= rows);
    }
    let ghost l1 = lines_view(out@);
    push_option_rows(out, &q.options, answer, selected, iw);
    let ghost l2 = lines_view(out@);
    let nopt = q.options.len();
    let trimmed = trim_chars(&chars_of(input));
    let picked = trimmed.len() > 0 && same_answer(answer, &trimmed);
    let active = selected == nopt;
    let mut h: Vec<char> = if active {
        chars_of("▸ ")
    } else {
        chars_of("  ")
    };
    extend_chars(&mut h, &decimal_chars(nopt + 1));
    extend_chars(&mut h, &chars_of("."));
    extend_chars(&mut h, &chars_of(" Type your own answer"));
    if picked {
        extend_chars(&mut h, &chars_of(" ✓"));
    }
    let tone = if picked && !active {
        LineTone::Picked
    } else {
        LineTone::Plain
    };
    proof {
        assert(picked == custom_picked(opt_view(*answer), input@));
        assert(h@ =~= custom_row(nopt as nat, active, picked).0);
    }
    push_row(out, h, tone, active);
    proof {
        assert(lines_view(out@) =~= l0 + question_head_rows(
            *q,
            opt_view(*answer),
            selected as int,
            input@,
            iw as nat,
        ));
    }
}

fn help_chars(confirm: bool, single: bool, cw: usize) -> (r: String)
    ensures
        r@ == help_line(help_text(confirm, single), cw as nat),
{
    let t: &str = if confirm {
        "enter=submit  esc=cancel"
    } else if single {
        "↑↓=select  1-9=quick pick  enter=confirm  esc=cancel"
    } else {
        "←→=tab  ↑↓=select  1-9=quick pick  enter=confirm  esc=cancel"
    };
    assert(t@ == help_text(confirm, single));
    string_of(&centred(t, cw))
}

/// `t` after as many spaces as centre it in `width` columns.
pub(crate) fn centred(t: &str, width: usize) -> (r: Vec<char>)
    ensures
        r@ == help_line(t@, width as nat),
{
    let tw = str_width(t);
    let pad: usize = if width >= tw {
        (width - tw) / 2
    } else {
        0
    };
    let mut out: Vec<char> = Vec::new();
    let mut i: usize = 0;
    while i < pad
        invariant
            i <= pad,
            out@ == Seq::new(i as nat, |j: int| ' '),
        decreases pad - i,
    {
        out.push(' ');
        proof {
            assert(out@ =~= Seq::new((i + 1) as nat, |j: int| ' '));
        }
        i = i + 1;
    }
    extend_chars(&mut out, &chars_of(t));
    out
}

fn question_view(
    q: &QuestionInfo,
    answer: &Option<String>,
    selected: usize,
    input: &str,
    custom_cursor: usize,
    editing: bool,
    single: bool,
    area_w: u16,
    dialog: DialogRect,
) -> (r: (Vec<PanelLine>, Option<(u16, u16)>))
    requires
        q.options@.len() < usize::MAX,
    ensures
        lines_view(r.0@) == question_head_rows(
            *q,
            opt_view(*answer),
            selected as int,
            input@,
            ask_inner(area_w as nat),
        ) + if editing {
            edit_rows(input@, custom_cursor as int, edit_width(area_w as nat))
        } else {
            Seq::empty()
        },
        r.1 == (if editing {
            question_cursor(
                *q,
                opt_view(*answer),
                selected as int,
                input@,
                custom_cursor as int,
                single,
                area_w as nat,
                dialog,
            )
        } else {
            None
        }),
{
    let w: u16 = if area_w < 50 {
        50
    } else if area_w > 80 {
        80
    } else {
        area_w
    };
    let iw: usize = (w - 4) as usize;
    let cw: usize = (w - 2) as usize;
    let tab: usize = if single {
        0
    } else {
        1
    };
    let mut lines: Vec<PanelLine> = Vec::new();
    let mut cursor: Option<(u16, u16)> = None;
    push_question_head(&mut lines, q, answer, selected, input, iw);
    let head_len = lines.len();
    let ghost head = lines_view(lines@);
    assert(head.len() == head_len);
    if editing {
        let tw: usize = if cw >= 6 {
            cw - 5
        } else {
            1
        };
        let (row, col, wlen) = push_edit_rows(&mut lines, input, custom_cursor, tw);
        let all_len = lines.len();
        assert(lines_view(lines@).len() == lines@.len());
        if row < wlen {
            assert(tab + head_len + row <= all_len);
            let idx: usize = tab + head_len + row;
            let cx0: u32 = dialog.x as u32 + 1;
            let a: u32 = cx0 + 5 + (col as u16) as u32;
            let b: u32 = cx0 + (cw - 1) as u32;
            let cx: u16 = if a < b {
                a as u16
            } else {
                b as u16
            };
            let cy: u16 = (dialog.y as u32 + 1 + (idx as u16) as u32) as u16;
            cursor = Some((cx, cy));
        }
    } else {
        assert(lines_view(lines@) =~= head + Seq::<(Seq<char>, LineTone, bool)>::empty());
    }
    (lines, cursor)
}

fn ask_rect_of(
    area_w: u16,
    area_h: u16,
    questions: &[QuestionInfo],
    current_tab: usize,
    answers: &[Option<String>],
    input: &str,
    editing: bool,
) -> (r: DialogRect)
    requires
        answers@.len() >= questions@.len(),
        (questions@.len() != 1 && current_tab == questions@.len()) || current_tab < questions@.len(),
    ensures
        r == ask_rect(
            area_w as nat,
            area_h as nat,
            ask_height(questions@, current_tab as int, answers@, input@, editing, area_w as nat),
        ),
{
    let n = questions.len();
    let single = n == 1;
    let confirm = !single && current_tab == n;
    let w: u16 = if area_w < 50 {
        50
    } else if area_w > 80 {
        80
    } else {
        area_w
    };
    let iw: usize = (w - 4) as usize;
    let rows_count: usize = if confirm {
        confirm_count_of(questions, answers, iw)
    } else {
        question_count_of(&questions[current_tab], iw, input, editing)
    };
    let tab: usize = if single {
        0
    } else {
        1
    };
    let total: usize = tab.saturating_add(rows_count).saturating_add(4);
    let h: u16 = total as u16;
    let x: u16 = if area_w >= w {
        (area_w - w) / 2
    } else {
        0
    };
    let y: u16 = if area_h >= h {
        (area_h - h) / 2
    } else {
        0
    };
    DialogRect { x, y, width: w, height: h }
}

/// What the ask-user dialog shows in an area of `area_w` by `area_h`
/// cells: the questions, the current tab, the row selected, the answers so
/// far, the typed answers with the cursor (a byte offset) in the current
/// one, and whether one is being typed. The tab row, the rows under it and
/// the help line are given separately; the cursor is where the terminal's
/// cursor goes.
pub fn ask_user_view(
    area_w: u16,
    area_h: u16,
    questions: &[QuestionInfo],
    current_tab: usize,
    selected: usize,
    answers: &[Option<String>],
    custom_inputs: &[String],
    custom_cursor: usize,
    editing: bool,
) -> (v: AskUserLayout)
    requires
        answers@.len() >= questions@.len(),
        (questions@.len() != 1 && current_tab == questions@.len()) || current_tab < questions@.len(),
        forall|i: int|
            0 <= i < questions@.len() ==> (#[trigger] questions@[i]).options@.len() < usize::MAX,
    ensures
        ({
            let qs = questions@;
            let input = tab_input(custom_inputs@, current_tab as int);
            let h = ask_height(qs, current_tab as int, answers@, input, editing, area_w as nat);
            let rect = ask_rect(area_w as nat, area_h as nat, h);
            let confirm = qs.len() != 1 && current_tab == qs.len();
            &&& v.dialog == rect
            &&& tabs_view(v.tabs@) == tab_cells(qs, answers@, current_tab as int)
            &&& lines_view(v.lines@) == ask_rows(
                qs,
                current_tab as int,
                selected as int,
                answers@,
                input,
                custom_cursor as int,
                editing,
                area_w as nat,
            )
            &&& v.help@ == help_line(help_text(confirm, qs.len() == 1), ask_content_width(area_w as nat))
            &&& v.cursor == ask_cursor(
                qs,
                current_tab as int,
                selected as int,
                answers@,
                input,
                custom_cursor as int,
                editing,
                area_w as nat,
                rect,
            )
        }),
{
    let n = questions.len();
    let single = n == 1;
    let confirm = !single && current_tab == n;
    let empty = String::new();
    let input: &str = if current_tab < custom_inputs.len() {
        custom_inputs[current_tab].as_str()
    } else {
        empty.as_str()
    };
    assert(input@ == tab_input(custom_inputs@, current_tab as int));
    let cw: usize = if area_w < 50 {
        48
    } else if area_w > 80 {
        78
    } else {
        (area_w - 2) as usize
    };
    let dialog = ask_rect_of(area_w, area_h, questions, current_tab, answers, input, editing);
    let tabs = tab_cells_of(questions, answers, current_tab);
    let mut lines: Vec<PanelLine> = Vec::new();
    let mut cursor: Option<(u16, u16)> = None;
    if confirm {
        push_confirm_rows(&mut lines, questions, answers);
        proof {
            assert(lines_view(lines@) =~= confirm_rows(questions@, answers@));
        }
    } else {
        let (l, c) = question_view(
            &questions[current_tab],
            &answers[current_tab],
            selected,
            input,
            custom_cursor,
            editing,
            single,
            area_w,
            dialog,
        );
        lines = l;
        cursor = c;
    }
    let help = help_chars(confirm, single, cw);
    AskUserLayout { dialog, tabs, lines, help, cursor }
}

} // verus!

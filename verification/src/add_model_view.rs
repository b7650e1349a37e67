//! What the add-model form shows: the dialog's place and height, the rows
//! of the current step (the provider list, or a prompt with hints and the
//! wrapped input), the error, the help line at the bottom, and where the
//! terminal cursor goes.

use vstd::prelude::*;
use crate::ask_user_view::{centred, help_line};
use crate::mcp_view::{lines_view, DialogRect, LineTone, PanelLine};
use crate::model_picker::{wrap_input, wrapped, AddModelForm, AddModelStep, AddModelView, ProviderInfo};
use crate::text::{byte_at, chars_of, extend_chars, string_of};

verus! {

/// The dialog is at most 58 cells wide.
pub open spec fn form_width(area_w: nat) -> nat {
    if area_w < 58 {
        area_w
    } else {
        58
    }
}

/// The columns inside the border.
pub open spec fn form_inner(area_w: nat) -> nat {
    if form_width(area_w) >= 2 {
        (form_width(area_w) - 2) as nat
    } else {
        0
    }
}

/// The columns the input wraps to, after its three-column prompt.
pub open spec fn form_input_width(area_w: nat) -> nat {
    if form_inner(area_w) >= 3 {
        (form_inner(area_w) - 3) as nat
    } else {
        0
    }
}

/// A count that stops at `usize::MAX`.
pub open spec fn sadd(a: nat, b: nat) -> nat {
    if a + b > usize::MAX {
        usize::MAX as nat
    } else {
        a + b
    }
}

/// The main prompt of a step that asks for text.
pub open spec fn step_prompt(step: AddModelStep) -> Seq<char> {
    match step {
        AddModelStep::SelectProvider => Seq::empty(),
        AddModelStep::InputProviderName => "请输入服务商名称"@,
        AddModelStep::InputBaseUrl => "请输入 API 地址"@,
        AddModelStep::InputApiKey => "请输入 API Key"@,
        AddModelStep::InputModelName => "请输入模型名称 (Model ID)"@,
        AddModelStep::InputContextWindow => "请输入上下文窗口大小"@,
    }
}

/// The first hint of a step: what the step asks for, or what was chosen
/// before it.
pub open spec fn step_hint(f: AddModelView) -> Seq<char> {
    match f.step {
        AddModelStep::SelectProvider => Seq::empty(),
        AddModelStep::InputProviderName => "用于标识，如 ollama、siliconflow"@,
        AddModelStep::InputBaseUrl => "服务商: "@ + f.provider_id,
        AddModelStep::InputApiKey => "端点: "@ + f.base_url,
        AddModelStep::InputModelName => "例如: qwen3-235b-a22b, llama3-70b"@,
        AddModelStep::InputContextWindow => "留空使用默认值 131072 (128K)"@,
    }
}

/// The second hint (only the endpoint step has one).
pub open spec fn step_hint2(step: AddModelStep) -> Seq<char> {
    match step {
        AddModelStep::InputBaseUrl => "例如: http://localhost:11434/v1"@,
        _ => Seq::empty(),
    }
}

/// The step's number out of five.
pub open spec fn step_number(step: AddModelStep) -> nat {
    match step {
        AddModelStep::SelectProvider => 0,
        AddModelStep::InputProviderName => 1,
        AddModelStep::InputBaseUrl => 2,
        AddModelStep::InputApiKey => 3,
        AddModelStep::InputModelName => 4,
        AddModelStep::InputContextWindow => 5,
    }
}

/// Hint rows the height allows for: one for the name step, one for the
/// steps with an example or a default (endpoint, model, context window).
pub open spec fn hint_rows(step: AddModelStep) -> nat {
    match step {
        AddModelStep::SelectProvider => 0,
        AddModelStep::InputApiKey => 0,
        _ => 1,
    }
}

/// The wrapped input, with the cursor's row and column.
pub open spec fn form_wrapped(f: AddModelView, area_w: nat) -> (Seq<Seq<char>>, nat, nat) {
    wrapped(f.input.text, byte_at(f.input.text, f.input.cursor) as int, form_input_width(area_w))
}

/// The dialog's height: 14 rows for the provider list; else six rows, the
/// input's rows, the footer, the hint rows and two rows for an error, at
/// least 10 and at most the area's height, but never under 10.
pub open spec fn form_height(f: AddModelView, area_w: nat, area_h: nat) -> u16 {
    if f.step == AddModelStep::SelectProvider {
        14
    } else {
        let needed = sadd(
            sadd(sadd(6, form_wrapped(f, area_w).0.len()), 1 + hint_rows(f.step)),
            if f.error.len() > 0 {
                2
            } else {
                0
            },
        );
        let a = if needed < 10 {
            10
        } else {
            needed
        };
        let b = if a < area_h {
            a
        } else {
            area_h
        };
        (if b < 10 {
            10
        } else {
            b
        }) as u16
    }
}

/// The dialog, centred.
pub open spec fn form_rect(f: AddModelView, area_w: nat, area_h: nat) -> DialogRect {
    let w = form_width(area_w);
    let h = form_height(f, area_w, area_h);
    DialogRect {
        x: ((area_w - w) / 2) as u16,
        y: (if area_h >= h {
            (area_h - h) / 2
        } else {
            0
        }) as u16,
        width: w as u16,
        height: h,
    }
}

/// A rule across the dialog.
pub open spec fn rule(iw: nat) -> Seq<char> {
    " ─"@ + Seq::new(if iw >= 3 { (iw - 3) as nat } else { 0 }, |i: int| '─')
}

/// The rows of the provider list: a heading and a rule, each provider with
/// its endpoint, a rule, and the row that adds an endpoint.
pub open spec fn provider_rows(ps: Seq<ProviderInfo>, selected: int, iw: nat) -> Seq<
    (Seq<char>, LineTone, bool),
> {
    seq![("  选择目标服务商"@, LineTone::Plain, false), (rule(iw), LineTone::Muted, false)]
        + Seq::new(
        ps.len(),
        |i: int| ("  "@ + ps[i].id@ + "  "@ + ps[i].base_url@, LineTone::Plain, i == selected),
    ) + seq![
        (rule(iw), LineTone::Muted, false),
        ("  + 新增自定义端点"@, LineTone::Accent, ps.len() == selected),
    ]
}

/// The rows above the input of a step that asks for text.
pub open spec fn input_head_rows(f: AddModelView, iw: nat) -> Seq<(Seq<char>, LineTone, bool)> {
    seq![
        (" 步骤 "@ + crate::text::decimal(step_number(f.step)) + "/5"@, LineTone::Accent, false),
        (rule(iw), LineTone::Muted, false),
        (" "@ + step_prompt(f.step), LineTone::Plain, false),
    ] + (if step_hint(f).len() > 0 {
        seq![(" "@ + step_hint(f), LineTone::Muted, false)]
    } else {
        Seq::empty()
    }) + (if step_hint2(f.step).len() > 0 {
        seq![(" "@ + step_hint2(f.step), LineTone::Muted, false)]
    } else {
        Seq::empty()
    }) + seq![(Seq::<char>::empty(), LineTone::Plain, false)]
}

/// The input's rows: a prompt before the first, an indent before the rest.
pub open spec fn input_rows(w: Seq<Seq<char>>) -> Seq<(Seq<char>, LineTone, bool)> {
    Seq::new(
        w.len(),
        |i: int|
            (
                (if i == 0 {
                    " > "@
                } else {
                    "   "@
                }) + w[i],
                LineTone::Plain,
                false,
            ),
    )
}

/// The rows of the current step, and the error under them.
pub open spec fn form_body(f: AddModelView, area_w: nat) -> Seq<(Seq<char>, LineTone, bool)> {
    let iw = form_inner(area_w);
    (if f.step == AddModelStep::SelectProvider {
        provider_rows(f.providers, f.selected, iw)
    } else {
        input_head_rows(f, iw) + input_rows(form_wrapped(f, area_w).0)
    }) + (if f.error.len() > 0 {
        seq![(Seq::<char>::empty(), LineTone::Plain, false), (" ⚠ "@ + f.error, LineTone::Failed, false)]
    } else {
        Seq::empty()
    })
}

/// Every row: the body, blank rows down to the row above the bottom, and
/// the help line.
pub open spec fn form_lines(f: AddModelView, area_w: nat, area_h: nat) -> Seq<(Seq<char>, LineTone, bool)> {
    finished(form_body(f, area_w), (form_height(f, area_w, area_h) - 3) as nat, form_inner(area_w))
}

/// Where the terminal cursor goes: nowhere in particular (0, 0) on the
/// provider list; else after the input's text on the cursor's row, kept
/// inside the dialog.
pub open spec fn form_cursor(f: AddModelView, area_w: nat, area_h: nat) -> (u16, u16) {
    if f.step == AddModelStep::SelectProvider {
        (0, 0)
    } else {
        let r = form_rect(f, area_w, area_h);
        let (w, row, col) = form_wrapped(f, area_w);
        let ix = r.x + 1;
        let a = ix + 3 + (col as u16);
        let b = ix + form_inner(area_w) - 1;
        let input_row = input_head_rows(f, form_inner(area_w)).len();
        (
            (if a < b {
                a
            } else {
                b
            }) as u16,
            (r.y + 1 + (input_row as u16) + (row as u16)) as u16,
        )
    }
}

/// What the add-model form shows.
pub struct AddModelLayout {
    pub dialog: DialogRect,
    pub lines: Vec<PanelLine>,
    pub cursor: (u16, u16),
}

fn push_line(out: &mut Vec<PanelLine>, text: Vec<char>, tone: LineTone)
    ensures
        lines_view(final(out)@) == lines_view(old(out)@).push((text@, tone, false)),
{
    let ghost before = lines_view(out@);
    out.push(PanelLine { text: string_of(&text), tone, selected: false });
    proof {
        assert(lines_view(out@) =~= before.push((text@, tone, false)));
    }
}

fn rule_chars(iw: usize) -> (r: Vec<char>)
    ensures
        r@ == rule(iw as nat),
{
    let mut r = chars_of(" ─");
    let n: usize = if iw >= 3 {
        iw - 3
    } else {
        0
    };
    let ghost r0 = r@;
    let mut i: usize = 0;
    while i < n
        invariant
            i <= n,
            r@ == r0 + Seq::new(i as nat, |j: int| '─'),
        decreases n - i,
    {
        r.push('─');
        proof {
            assert(r@ =~= r0 + Seq::new((i + 1) as nat, |j: int| '─'));
        }
        i = i + 1;
    }
    r
}

fn push_provider_rows(out: &mut Vec<PanelLine>, ps: &[ProviderInfo], selected: usize, iw: usize)
    ensures
        lines_view(final(out)@) == lines_view(old(out)@) + provider_rows(ps@, selected as int, iw as nat),
{
    let ghost l0 = lines_view(out@);
    push_line(out, chars_of("  选择目标服务商"), LineTone::Plain);
    push_line(out, rule_chars(iw), LineTone::Muted);
    let ghost l1 = lines_view(out@);
    let ghost f = |i: int| ("  "@ + ps@[i].id@ + "  "@ + ps@[i].base_url@, LineTone::Plain, i == selected);
    let mut i: usize = 0;
    while i < ps.len()
        invariant
            i <= ps@.len(),
            f == (|i: int| ("  "@ + ps@[i].id@ + "  "@ + ps@[i].base_url@, LineTone::Plain, i == selected)),
            lines_view(out@) == l1 + Seq::new(i as nat, f),
        decreases ps@.len() - i,
    {
        let mut t = chars_of("  ");
        extend_chars(&mut t, &chars_of(ps[i].id.as_str()));
        extend_chars(&mut t, &chars_of("  "));
        extend_chars(&mut t, &chars_of(ps[i].base_url.as_str()));
        let ghost before = lines_view(out@);
        let sel = i == selected;
        out.push(PanelLine { text: string_of(&t), tone: LineTone::Plain, selected: sel });
        proof {
            assert(t@ =~= f(i as int).0);
            assert(lines_view(out@) =~= before.push(f(i as int)));
            assert(lines_view(out@) =~= l1 + Seq::new((i + 1) as nat, f));
        }
        i = i + 1;
    }
    push_line(out, rule_chars(iw), LineTone::Muted);
    let ghost before = lines_view(out@);
    let last = ps.len() == selected;
    out.push(PanelLine { text: string_of(&chars_of("  + 新增自定义端点")), tone: LineTone::Accent, selected: last });
    proof {
        assert(lines_view(out@) =~= before.push(("  + 新增自定义端点"@, LineTone::Accent, last)));
        assert(lines_view(out@) =~= l0 + provider_rows(ps@, selected as int, iw as nat));
    }
}

fn push_input_head(out: &mut Vec<PanelLine>, form: &AddModelForm, iw: usize)
    requires
        form@.step != AddModelStep::SelectProvider,
    ensures
        lines_view(final(out)@) == lines_view(old(out)@) + input_head_rows(form@, iw as nat),
{
    let ghost l0 = lines_view(out@);
    let ghost f = form@;
    let step = form.step();
    let (num, prompt): (usize, &str) = match step {
        AddModelStep::SelectProvider => (0, ""),
        AddModelStep::InputProviderName => (1, "请输入服务商名称"),
        AddModelStep::InputBaseUrl => (2, "请输入 API 地址"),
        AddModelStep::InputApiKey => (3, "请输入 API Key"),
        AddModelStep::InputModelName => (4, "请输入模型名称 (Model ID)"),
        AddModelStep::InputContextWindow => (5, "请输入上下文窗口大小"),
    };
    assert(prompt@ == step_prompt(f.step));
    let mut p = chars_of(" 步骤 ");
    extend_chars(&mut p, &crate::text::decimal_chars(num));
    extend_chars(&mut p, &chars_of("/5"));
    push_line(out, p, LineTone::Accent);
    push_line(out, rule_chars(iw), LineTone::Muted);
    let mut q = chars_of(" ");
    extend_chars(&mut q, &chars_of(prompt));
    push_line(out, q, LineTone::Plain);
    let ghost l1 = lines_view(out@);
    let hint: Vec<char> = match step {
        AddModelStep::SelectProvider => Vec::new(),
        AddModelStep::InputProviderName => chars_of("用于标识，如 ollama、siliconflow"),
        AddModelStep::InputBaseUrl => {
            let mut h = chars_of("服务商: ");
            extend_chars(&mut h, &chars_of(form.provider_id()));
            h
        },
        AddModelStep::InputApiKey => {
            let mut h = chars_of("端点: ");
            extend_chars(&mut h, &chars_of(form.base_url()));
            h
        },
        AddModelStep::InputModelName => chars_of("例如: qwen3-235b-a22b, llama3-70b"),
        AddModelStep::InputContextWindow => chars_of("留空使用默认值 131072 (128K)"),
    };
    assert(hint@ == step_hint(f));
    if hint.len() > 0 {
        let mut h = chars_of(" ");
        extend_chars(&mut h, &hint);
        push_line(out, h, LineTone::Muted);
    }
    let ghost l2 = lines_view(out@);
    let hint2: Vec<char> = match step {
        AddModelStep::InputBaseUrl => chars_of("例如: http://localhost:11434/v1"),
        _ => Vec::new(),
    };
    assert(hint2@ == step_hint2(f.step));
    if hint2.len() > 0 {
        let mut h = chars_of(" ");
        extend_chars(&mut h, &hint2);
        push_line(out, h, LineTone::Muted);
    }
    push_line(out, Vec::new(), LineTone::Plain);
    proof {
        assert(lines_view(out@) =~= l0 + input_head_rows(f, iw as nat));
    }
}

fn form_wrapped_of(form: &AddModelForm, input_w: usize) -> (r: (Vec<String>, usize, usize))
    requires
        form.wf(),
    ensures
        r.0@.map_values(|l: String| l@) == wrapped(
            form@.input.text,
            byte_at(form@.input.text, form@.input.cursor) as int,
            input_w as nat,
        ).0,
        r.1 == wrapped(
            form@.input.text,
            byte_at(form@.input.text, form@.input.cursor) as int,
            input_w as nat,
        ).1,
        r.2 == wrapped(
            form@.input.text,
            byte_at(form@.input.text, form@.input.cursor) as int,
            input_w as nat,
        ).2,
{
    let b = form.buffer();
    wrap_input(b.as_str(), form.cursor(), input_w)
}

fn push_input_rows(out: &mut Vec<PanelLine>, w: &Vec<String>)
    ensures
        lines_view(final(out)@) == lines_view(old(out)@) + input_rows(w@.map_values(|l: String| l@)),
{
    let ghost l0 = lines_view(out@);
    let ghost ws = w@.map_values(|l: String| l@);
    let ghost rows = input_rows(ws);
    let mut i: usize = 0;
    while i < w.len()
        invariant
            i <= w@.len(),
            ws == w@.map_values(|l: String| l@),
            rows == input_rows(ws),
            rows.len() == w@.len(),
            lines_view(out@) == l0 + rows.take(i as int),
        decreases w@.len() - i,
    {
        let mut t: Vec<char> = if i == 0 {
            chars_of(" > ")
        } else {
            chars_of("   ")
        };
        extend_chars(&mut t, &chars_of(w[i].as_str()));
        proof {
            assert(ws[i as int] == w@[i as int]@);
            assert(t@ =~= rows[i as int].0);
        }
        push_line(out, t, LineTone::Plain);
        proof {
            assert(rows.take(i + 1) =~= rows.take(i as int).push(rows[i as int]));
        }
        i = i + 1;
    }
    proof {
        assert(rows.take(w@.len() as int) =~= rows);
    }
}

fn form_rect_of(area_w: u16, area_h: u16, form: &AddModelForm, wlen: usize) -> (r: DialogRect)
    requires
        form.wf(),
        form@.step != AddModelStep::SelectProvider ==> wlen == form_wrapped(form@, area_w as nat).0.len(),
    ensures
        r == form_rect(form@, area_w as nat, area_h as nat),
        r.height >= 10,
{
    let w: u16 = if area_w < 58 {
        area_w
    } else {
        58
    };
    let h: u16 = if form.step() == AddModelStep::SelectProvider {
        14
    } else {
        let hint: usize = match form.step() {
            AddModelStep::SelectProvider => 0,
            AddModelStep::InputApiKey => 0,
            _ => 1,
        };
        let e = chars_of(form.error_msg());
        let err: usize = if e.len() > 0 {
            2
        } else {
            0
        };
        proof {
            assert(e@.len() > 0 <==> form@.error.len() > 0);
        }
        let needed = (6usize).saturating_add(wlen).saturating_add(1 + hint).saturating_add(err);
        let a = if needed < 10 {
            10
        } else {
            needed
        };
        let b = if a < area_h as usize {
            a
        } else {
            area_h as usize
        };
        if b < 10 {
            10
        } else {
            b as u16
        }
    };
    let y: u16 = if area_h >= h {
        (area_h - h) / 2
    } else {
        0
    };
    DialogRect { x: (area_w - w) / 2, y, width: w, height: h }
}

/// The body, blank rows down to row `footer`, and the help line.
pub open spec fn finished(body: Seq<(Seq<char>, LineTone, bool)>, footer: nat, iw: nat) -> Seq<
    (Seq<char>, LineTone, bool),
> {
    let padded = if body.len() >= footer {
        body
    } else {
        body + Seq::new((footer - body.len()) as nat, |i: int| (Seq::<char>::empty(), LineTone::Plain, false))
    };
    padded.push((help_line("Enter 确认 · Esc 返回"@, iw), LineTone::Muted, false))
}

fn finish_lines(lines: &mut Vec<PanelLine>, footer: usize, iw: usize)
    ensures
        lines_view(final(lines)@) == finished(lines_view(old(lines)@), footer as nat, iw as nat),
{
    let ghost body = lines_view(lines@);
    while lines.len() < footer
        invariant
            lines_view(lines@).len() == lines@.len(),
            body.len() <= lines@.len(),
            lines@.len() <= footer || lines@.len() == body.len(),
            lines_view(lines@) == body + Seq::new(
                (lines@.len() - body.len()) as nat,
                |i: int| (Seq::<char>::empty(), LineTone::Plain, false),
            ),
        decreases footer - lines@.len(),
    {
        push_line(lines, Vec::new(), LineTone::Plain);
        proof {
            assert(lines_view(lines@) =~= body + Seq::new(
                (lines@.len() - body.len()) as nat,
                |i: int| (Seq::<char>::empty(), LineTone::Plain, false),
            ));
        }
    }
    let ghost padded = lines_view(lines@);
    push_line(lines, centred("Enter 确认 · Esc 返回", iw), LineTone::Muted);
    proof {
        if body.len() >= footer {
            assert(padded =~= body);
        }
        assert(lines_view(lines@) =~= finished(body, footer as nat, iw as nat));
    }
}

/// What the add-model form shows in an area of `area_w` by `area_h` cells.
pub fn add_model_view(area_w: u16, area_h: u16, form: &AddModelForm) -> (v: AddModelLayout)
    requires
        form.wf(),
    ensures
        v.dialog == form_rect(form@, area_w as nat, area_h as nat),
        lines_view(v.lines@) == form_lines(form@, area_w as nat, area_h as nat),
        v.cursor == form_cursor(form@, area_w as nat, area_h as nat),
{
    let w: u16 = if area_w < 58 {
        area_w
    } else {
        58
    };
    let iw: usize = if w >= 2 {
        (w - 2) as usize
    } else {
        0
    };
    let input_w: usize = if iw >= 3 {
        iw - 3
    } else {
        0
    };
    let (wl, crow, ccol) = form_wrapped_of(form, input_w);
    proof {
        assert(wl@.map_values(|l: String| l@).len() == wl@.len());
    }
    let dialog = form_rect_of(area_w, area_h, form, wl.len());
    let select = form.step() == AddModelStep::SelectProvider;
    let mut lines: Vec<PanelLine> = Vec::new();
    let mut input_row: usize = 0;
    if select {
        push_provider_rows(&mut lines, form.provider_options(), form.selected_index(), iw);
    } else {
        push_input_head(&mut lines, form, iw);
        input_row = lines.len();
        push_input_rows(&mut lines, &wl);
    }
    let ghost body0 = lines_view(lines@);
    let e = chars_of(form.error_msg());
    if e.len() > 0 {
        push_line(&mut lines, Vec::new(), LineTone::Plain);
        let mut t = chars_of(" ⚠ ");
        extend_chars(&mut t, &e);
        push_line(&mut lines, t, LineTone::Failed);
    }
    let ghost body = lines_view(lines@);
    assert(body =~= form_body(form@, area_w as nat));
    finish_lines(&mut lines, (dialog.height - 3) as usize, iw);
    proof {
        assert(lines_view(lines@) =~= form_lines(form@, area_w as nat, area_h as nat));
    }
    let cursor: (u16, u16) = if select {
        (0, 0)
    } else {
        let ix: u32 = dialog.x as u32 + 1;
        let a: u32 = ix + 3 + (ccol as u16) as u32;
        let b: u32 = ix + iw as u32 - 1;
        let cx: u16 = if a < b {
            a as u16
        } else {
            b as u16
        };
        let cy: u16 = (dialog.y as u32 + 1 + (input_row as u16) as u32 + (crow as u16) as u32) as u16;
        (cx, cy)
    };
    AddModelLayout { dialog, lines, cursor }
}

} // verus!

//! What the model switcher shows: the dialog's place, the window of models
//! around the selection with a heading where the provider changes, the row
//! that adds a custom model, and the help line.

use vstd::prelude::*;
use crate::ask_user_view::{centred, help_line};
use crate::mcp_view::{lines_view, DialogRect, LineTone, PanelLine};
use crate::text::{chars_eq, chars_of, extend_chars, string_of};

verus! {

/// What the switcher reads of one model.
pub struct ModelRow {
    pub provider_name: String,
    pub display: String,
    pub model_name: String,
    pub model_id: String,
    pub needs_setup: bool,
}

/// The dialog is at most 50 cells wide.
pub open spec fn switcher_width(area_w: nat) -> nat {
    if area_w < 50 {
        area_w
    } else {
        50
    }
}

/// Eight tenths of the height left after four rows, kept between 20 and 40.
pub open spec fn switcher_height(area_h: nat) -> nat {
    let base: nat = (if area_h >= 4 {
        (area_h - 4) as nat
    } else {
        0
    }) * 8 / 10;
    if base < 20 {
        20
    } else if base > 40 {
        40
    } else {
        base
    }
}

/// The dialog, centred (at the top where it is taller than the area).
pub open spec fn switcher_rect(area_w: nat, area_h: nat) -> DialogRect {
    let w = switcher_width(area_w);
    let h = switcher_height(area_h);
    DialogRect {
        x: ((area_w - w) / 2) as u16,
        y: (if area_h >= h {
            (area_h - h) / 2
        } else {
            0
        }) as u16,
        width: w as u16,
        height: h as u16,
    }
}

/// The columns inside the border.
pub open spec fn switcher_inner_width(area_w: nat) -> nat {
    if switcher_width(area_w) >= 2 {
        (switcher_width(area_w) - 2) as nat
    } else {
        0
    }
}

/// A model's row: a dot for the model in use, its name, a note when it
/// still needs configuring, and its id when that differs from the name.
pub open spec fn model_text(m: ModelRow, current: Seq<char>) -> Seq<char> {
    "  "@ + (if m.display@ == current {
        "● "@
    } else {
        "  "@
    }) + m.model_name@ + (if m.needs_setup {
        " (需配置)"@
    } else {
        Seq::empty()
    }) + (if m.model_name@ != m.model_id@ {
        "  ("@ + m.model_id@ + ")"@
    } else {
        Seq::empty()
    })
}

/// The model in use is drawn in green unless it is selected.
pub open spec fn model_tone(is_current: bool, is_selected: bool) -> LineTone {
    if is_current && !is_selected {
        LineTone::Picked
    } else {
        LineTone::Plain
    }
}

/// The rows of the models from `from` up to `to`, with a heading before
/// each model whose provider differs from the one before it in the window
/// (the first one's, unless its provider is empty); and that last
/// provider.
pub open spec fn model_rows_upto(
    ms: Seq<ModelRow>,
    selected: int,
    current: Seq<char>,
    from: int,
    to: int,
) -> (Seq<(Seq<char>, LineTone, bool)>, Seq<char>)
    decreases to - from,
{
    if to <= from || to > ms.len() {
        (Seq::empty(), Seq::empty())
    } else {
        let (r, last) = model_rows_upto(ms, selected, current, from, to - 1);
        let m = ms[to - 1];
        let head = if m.provider_name@ != last {
            seq![("  ── "@ + m.provider_name@ + " "@, LineTone::Muted, false)]
        } else {
            Seq::empty()
        };
        (
            r + head + seq![
                (
                    model_text(m, current),
                    model_tone(m.display@ == current, to - 1 == selected),
                    to - 1 == selected,
                ),
            ],
            m.provider_name@,
        )
    }
}

/// The first row shown: the list scrolls only when the selection lies
/// below the first screenful, and then puts it in the middle.
pub open spec fn switcher_scroll(selected: nat, rows: nat) -> nat {
    if selected >= rows {
        (selected - rows / 2) as nat
    } else {
        0
    }
}

/// The rows of the switcher: the models in the window, the row that adds a
/// model when it falls in the window (the entry after the last model), and
/// the help line under a blank row.
pub open spec fn switcher_lines(
    ms: Seq<ModelRow>,
    selected: nat,
    current: Seq<char>,
    area_w: nat,
    area_h: nat,
) -> Seq<(Seq<char>, LineTone, bool)> {
    let rows = (switcher_height(area_h) - 4) as nat;
    let scroll = switcher_scroll(selected, rows);
    let n = ms.len();
    let to = if n < scroll + rows {
        n
    } else {
        scroll + rows
    };
    let models = model_rows_upto(ms, selected as int, current, scroll as int, to as int).0;
    let add = if scroll <= n < scroll + rows {
        seq![
            (Seq::<char>::empty(), LineTone::Plain, false),
            ("  + 添加自定义模型..."@, LineTone::Accent, n == selected),
        ]
    } else {
        Seq::empty()
    };
    models + add + seq![
        (Seq::<char>::empty(), LineTone::Plain, false),
        (help_line("↑↓选择 Enter确认 Esc关闭"@, switcher_inner_width(area_w)), LineTone::Hint, false),
    ]
}

/// What the switcher shows.
pub struct SwitcherLayout {
    pub dialog: DialogRect,
    pub scroll: usize,
    pub lines: Vec<PanelLine>,
}

fn push_line(out: &mut Vec<PanelLine>, text: Vec<char>, tone: LineTone, sel: bool)
    ensures
        lines_view(final(out)@) == lines_view(old(out)@).push((text@, tone, sel)),
{
    let ghost before = lines_view(out@);
    out.push(PanelLine { text: string_of(&text), tone, selected: sel });
    proof {
        assert(lines_view(out@) =~= before.push((text@, tone, sel)));
    }
}

fn model_chars(m: &ModelRow, current: &[char]) -> (t: Vec<char>)
    ensures
        t@ == model_text(*m, current@),
{
    let mut t = chars_of("  ");
    if chars_eq(&chars_of(m.display.as_str()), current) {
        extend_chars(&mut t, &chars_of("● "));
    } else {
        extend_chars(&mut t, &chars_of("  "));
    }
    let name = chars_of(m.model_name.as_str());
    let id = chars_of(m.model_id.as_str());
    extend_chars(&mut t, &name);
    if m.needs_setup {
        extend_chars(&mut t, &chars_of(" (需配置)"));
    }
    if !chars_eq(&name, &id) {
        extend_chars(&mut t, &chars_of("  ("));
        extend_chars(&mut t, &id);
        extend_chars(&mut t, &chars_of(")"));
    }
    assert(t@ =~= model_text(*m, current@));
    t
}

fn push_models(
    out: &mut Vec<PanelLine>,
    ms: &[ModelRow],
    selected: usize,
    current: &[char],
    from: usize,
    to: usize,
)
    requires
        from <= to <= ms@.len(),
    ensures
        lines_view(final(out)@) == lines_view(old(out)@) + model_rows_upto(
            ms@,
            selected as int,
            current@,
            from as int,
            to as int,
        ).0,
{
    let ghost l0 = lines_view(out@);
    let mut last: Vec<char> = Vec::new();
    let mut i: usize = from;
    while i < to
        invariant
            from <= i <= to <= ms@.len(),
            lines_view(out@) == l0 + model_rows_upto(ms@, selected as int, current@, from as int, i as int).0,
            last@ == model_rows_upto(ms@, selected as int, current@, from as int, i as int).1,
        decreases to - i,
    {
        let ghost prev = model_rows_upto(ms@, selected as int, current@, from as int, i as int);
        let m = &ms[i];
        let p = chars_of(m.provider_name.as_str());
        let ghost l1 = lines_view(out@);
        if !chars_eq(&p, &last) {
            let mut h = chars_of("  ── ");
            extend_chars(&mut h, &p);
            extend_chars(&mut h, &chars_of(" "));
            push_line(out, h, LineTone::Muted, false);
        }
        let is_sel = i == selected;
        let tone = if chars_eq(&chars_of(m.display.as_str()), current) && !is_sel {
            LineTone::Picked
        } else {
            LineTone::Plain
        };
        push_line(out, model_chars(m, current), tone, is_sel);
        proof {
            assert(lines_view(out@) =~= l0 + model_rows_upto(
                ms@,
                selected as int,
                current@,
                from as int,
                i + 1,
            ).0);
        }
        last = p;
        i = i + 1;
    }
}

fn switcher_rect_of(area_w: u16, area_h: u16) -> (r: DialogRect)
    ensures
        r == switcher_rect(area_w as nat, area_h as nat),
        20 <= r.height <= 40,
        r.width as nat == switcher_width(area_w as nat),
        r.height as nat == switcher_height(area_h as nat),
{
    let w: u16 = if area_w < 50 {
        area_w
    } else {
        50
    };
    let left: u32 = if area_h >= 4 {
        (area_h - 4) as u32
    } else {
        0
    };
    let base: u32 = left * 8 / 10;
    let h: u16 = if base < 20 {
        20
    } else if base > 40 {
        40
    } else {
        base as u16
    };
    let y: u16 = if area_h >= h {
        (area_h - h) / 2
    } else {
        0
    };
    DialogRect { x: (area_w - w) / 2, y, width: w, height: h }
}

/// What the model switcher shows in an area of `area_w` by `area_h` cells,
/// with the entry at `selected` highlighted (the entry after the last
/// model adds one) and `current` the model in use.
pub fn switcher_view(
    area_w: u16,
    area_h: u16,
    models: &[ModelRow],
    selected: usize,
    current: &str,
) -> (v: SwitcherLayout)
    ensures
        v.dialog == switcher_rect(area_w as nat, area_h as nat),
        v.scroll == switcher_scroll(selected as nat, (switcher_height(area_h as nat) - 4) as nat),
        lines_view(v.lines@) == switcher_lines(
            models@,
            selected as nat,
            current@,
            area_w as nat,
            area_h as nat,
        ),
{
    let dialog = switcher_rect_of(area_w, area_h);
    let w = dialog.width;
    let h = dialog.height;
    let rows: usize = (h - 4) as usize;
    let iw: usize = if w >= 2 {
        (w - 2) as usize
    } else {
        0
    };
    let scroll: usize = if selected >= rows {
        selected - rows / 2
    } else {
        0
    };
    let n = models.len();
    let to: usize = if n < scroll || n - scroll < rows {
        n
    } else {
        scroll + rows
    };
    let cur = chars_of(current);
    let mut lines: Vec<PanelLine> = Vec::new();
    if scroll <= to {
        push_models(&mut lines, models, selected, &cur, scroll, to);
    } else {
        proof {
            assert(lines_view(lines@) =~= lines_view(lines@) + model_rows_upto(
                models@,
                selected as int,
                cur@,
                scroll as int,
                to as int,
            ).0);
        }
    }
    if scroll <= n && n - scroll < rows {
        push_line(&mut lines, Vec::new(), LineTone::Plain, false);
        push_line(&mut lines, chars_of("  + 添加自定义模型..."), LineTone::Accent, n == selected);
    }
    push_line(&mut lines, Vec::new(), LineTone::Plain, false);
    let hl = centred("↑↓选择 Enter确认 Esc关闭", iw);
    push_line(&mut lines, hl, LineTone::Hint, false);
    proof {
        assert(lines_view(lines@) =~= switcher_lines(
            models@,
            selected as nat,
            current@,
            area_w as nat,
            area_h as nat,
        ));
    }
    SwitcherLayout { dialog, scroll, lines }
}

} // verus!

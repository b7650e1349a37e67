//! What the session list shows: the dialog's place, the search line, the
//! window of matching sessions around the selection with a heading where
//! the date changes, and the help line.

use vstd::prelude::*;
use crate::ask_user_view::{centred, help_line};
use crate::mcp_view::{lines_view, selector, DialogRect, LineTone, PanelLine};
use crate::session_picker::{
    date_category, format_date_category, format_time_short, time_short, SessionPickerState,
    SessionSummary,
};
use crate::text::{chars_eq, chars_of, extend_chars, str_eq, string_of};
use crate::tool::{truncate_str, truncated};

verus! {

/// The dialog is at most 60 cells wide.
pub open spec fn list_width(area_w: nat) -> nat {
    if area_w < 60 {
        area_w
    } else {
        60
    }
}

/// Eight tenths of the height left after four rows, kept between 20 and 44.
pub open spec fn list_height(area_h: nat) -> nat {
    let base: nat = (if area_h >= 4 {
        (area_h - 4) as nat
    } else {
        0
    }) * 8 / 10;
    if base < 20 {
        20
    } else if base > 44 {
        44
    } else {
        base
    }
}

/// The dialog, centred (at the top where it is taller than the area).
pub open spec fn list_rect(area_w: nat, area_h: nat) -> DialogRect {
    let w = list_width(area_w);
    let h = list_height(area_h);
    DialogRect {
        x: ((area_w - w) / 2) as u16,
        y: (if area_h >= h {
            (area_h - h) / 2
        } else {
            0
        }) as u16,
        width: w as u16,
        height: h as u16,
    }
}

/// The search line: the query with a block cursor, or a placeholder.
pub open spec fn search_text(query: Seq<char>) -> Seq<char> {
    " 搜索: "@ + if query.len() == 0 {
        "输入关键词过滤..."@
    } else {
        query + "█"@
    }
}

/// A session's title cut to `tw` characters, or a placeholder when empty.
pub open spec fn display_title(title: Seq<char>, tw: nat) -> Seq<char> {
    let t = truncated(title, tw as int);
    if t.len() == 0 {
        "(新会话)"@
    } else {
        t
    }
}

/// A session's row: a dot for the current session, the selection marker,
/// the title and the time of day it was last updated.
pub open spec fn session_text(s: SessionSummary, is_current: bool, is_selected: bool, tw: nat) -> Seq<
    char,
> {
    (if is_current {
        " ● "@
    } else {
        "   "@
    }) + selector(is_selected) + display_title(s.title@, tw) + "  "@ + time_short(s.updated_at@)
}

/// The rows of the matches from `from` up to `to` (matches whose index is
/// past the sessions are skipped), with a heading before each session whose
/// date group differs from the one before it; and that last group.
pub open spec fn session_rows_upto(
    ss: Seq<SessionSummary>,
    filtered: Seq<usize>,
    selected: int,
    current: Option<Seq<char>>,
    today: Seq<char>,
    tw: nat,
    from: int,
    to: int,
) -> (Seq<(Seq<char>, LineTone, bool)>, Seq<char>)
    decreases to - from,
{
    if to <= from || to > filtered.len() {
        (Seq::empty(), Seq::empty())
    } else {
        let (r, last) = session_rows_upto(ss, filtered, selected, current, today, tw, from, to - 1);
        let idx = filtered[to - 1] as int;
        if idx >= ss.len() {
            (r, last)
        } else {
            let s = ss[idx];
            let label = date_category(s.updated_at@, today);
            let head = if label != last {
                seq![("  "@ + label, LineTone::Hint, false)]
            } else {
                Seq::empty()
            };
            let is_current = current == Some(s.id@);
            let is_selected = to - 1 == selected;
            (
                r + head + seq![
                    (
                        session_text(s, is_current, is_selected, tw),
                        if is_current && !is_selected {
                            LineTone::Picked
                        } else {
                            LineTone::Plain
                        },
                        is_selected,
                    ),
                ],
                label,
            )
        }
    }
}

/// The first match shown.
pub open spec fn list_scroll(selected: nat, rows: nat) -> nat {
    if selected >= rows {
        (selected - rows / 2) as nat
    } else {
        0
    }
}

/// The end of the window of matches shown.
pub open spec fn list_end(n: nat, scroll: nat, rows: nat) -> nat {
    if n < scroll + rows {
        n
    } else {
        scroll + rows
    }
}

/// Whether the window shows a session.
pub open spec fn shows_a_session(ss: Seq<SessionSummary>, filtered: Seq<usize>, from: int, to: int) -> bool {
    exists|k: int| from <= k < to && #[trigger] filtered[k] < ss.len()
}

/// The rows under the search line.
pub open spec fn list_lines(
    ss: Seq<SessionSummary>,
    filtered: Seq<usize>,
    selected: nat,
    current: Option<Seq<char>>,
    today: Seq<char>,
    area_w: nat,
    area_h: nat,
) -> Seq<(Seq<char>, LineTone, bool)> {
    let rows = (list_height(area_h) - 6) as nat;
    let scroll = list_scroll(selected, rows);
    let to = list_end(filtered.len(), scroll, rows);
    let tw = if list_width(area_w) >= 16 {
        (list_width(area_w) - 16) as nat
    } else {
        0
    };
    session_rows_upto(ss, filtered, selected as int, current, today, tw, scroll as int, to as int).0 + if filtered.len() == 0 {
        seq![
            (Seq::<char>::empty(), LineTone::Plain, false),
            ("  没有找到匹配的会话"@, LineTone::Hint, false),
        ]
    } else {
        Seq::empty()
    }
}

/// What the session list shows.
pub struct SessionListLayout {
    pub dialog: DialogRect,
    pub search: String,
    pub lines: Vec<PanelLine>,
    pub help: String,
}

fn push_line(out: &mut Vec<PanelLine>, text: Vec<char>, tone: LineTone, sel: bool)
    ensures
        lines_view(final(out)@) == lines_view(old(out)@).push((text@, tone, sel)),
{
    let ghost before = lines_view(out@);
    out.push(PanelLine { text: string_of(&text), tone, selected: sel });
    proof {
        assert(lines_view(out@) =~= before.push((text@, tone, sel)));
    }
}

fn same_id(current: Option<&str>, id: &str) -> (b: bool)
    ensures
        b == (match current {
            Some(c) => Some(c@),
            None => None,
        } == Some(id@)),
{
    match current {
        Some(c) => str_eq(c, id),
        None => false,
    }
}

fn session_chars(s: &SessionSummary, is_current: bool, is_selected: bool, tw: usize) -> (t: Vec<char>)
    ensures
        t@ == session_text(*s, is_current, is_selected, tw as nat),
{
    let mut t: Vec<char> = if is_current {
        chars_of(" ● ")
    } else {
        chars_of("   ")
    };
    if is_selected {
        extend_chars(&mut t, &chars_of("▸ "));
    } else {
        extend_chars(&mut t, &chars_of("  "));
    }
    let title = chars_of(truncate_str(s.title.as_str(), tw).as_str());
    if title.len() == 0 {
        extend_chars(&mut t, &chars_of("(新会话)"));
    } else {
        extend_chars(&mut t, &title);
    }
    extend_chars(&mut t, &chars_of("  "));
    extend_chars(&mut t, &chars_of(format_time_short(s.updated_at.as_str()).as_str()));
    assert(t@ =~= session_text(*s, is_current, is_selected, tw as nat));
    t
}

fn push_sessions(
    out: &mut Vec<PanelLine>,
    ss: &[SessionSummary],
    filtered: &[usize],
    selected: usize,
    current: Option<&str>,
    today: &str,
    w: usize,
    from: usize,
    to: usize,
)
    requires
        from <= to <= filtered@.len(),
        w >= 16 || !shows_a_session(ss@, filtered@, from as int, to as int),
    ensures
        lines_view(final(out)@) == lines_view(old(out)@) + session_rows_upto(
            ss@,
            filtered@,
            selected as int,
            match current {
                Some(c) => Some(c@),
                None => None,
            },
            today@,
            if w >= 16 {
                (w - 16) as nat
            } else {
                0
            },
            from as int,
            to as int,
        ).0,
{
    let ghost cur = match current {
        Some(c) => Some(c@),
        None => None,
    };
    let ghost tw: nat = if w >= 16 {
        (w - 16) as nat
    } else {
        0
    };
    let ghost l0 = lines_view(out@);
    let mut last: Vec<char> = Vec::new();
    let mut i: usize = from;
    while i < to
        invariant
            from <= i <= to <= filtered@.len(),
            w >= 16 || !shows_a_session(ss@, filtered@, from as int, to as int),
            cur == match current {
                Some(c) => Some(c@),
                None => None,
            },
            tw == (if w >= 16 {
                (w - 16) as nat
            } else {
                0
            }),
            lines_view(out@) == l0 + session_rows_upto(
                ss@,
                filtered@,
                selected as int,
                cur,
                today@,
                tw,
                from as int,
                i as int,
            ).0,
            last@ == session_rows_upto(ss@, filtered@, selected as int, cur, today@, tw, from as int, i as int).1,
        decreases to - i,
    {
        let idx = filtered[i];
        if idx < ss.len() {
            proof {
                assert(filtered@[i as int] < ss@.len());
                assert(shows_a_session(ss@, filtered@, from as int, to as int));
            }
            let s = &ss[idx];
            let label = chars_of(format_date_category(s.updated_at.as_str(), today).as_str());
            if !chars_eq(&label, &last) {
                let mut h = chars_of("  ");
                extend_chars(&mut h, &label);
                push_line(out, h, LineTone::Hint, false);
            }
            let is_current = same_id(current, s.id.as_str());
            let is_selected = i == selected;
            let tone = if is_current && !is_selected {
                LineTone::Picked
            } else {
                LineTone::Plain
            };
            push_line(out, session_chars(s, is_current, is_selected, w - 16), tone, is_selected);
            last = label;
        }
        proof {
            assert(lines_view(out@) =~= l0 + session_rows_upto(
                ss@,
                filtered@,
                selected as int,
                cur,
                today@,
                tw,
                from as int,
                i + 1,
            ).0);
        }
        i = i + 1;
    }
}

fn list_rect_of(area_w: u16, area_h: u16) -> (r: DialogRect)
    ensures
        r == list_rect(area_w as nat, area_h as nat),
        r.width as nat == list_width(area_w as nat),
        r.height as nat == list_height(area_h as nat),
        20 <= r.height <= 44,
{
    let w: u16 = if area_w < 60 {
        area_w
    } else {
        60
    };
    let left: u32 = if area_h >= 4 {
        (area_h - 4) as u32
    } else {
        0
    };
    let base: u32 = left * 8 / 10;
    let h: u16 = if base < 20 {
        20
    } else if base > 44 {
        44
    } else {
        base as u16
    };
    let y: u16 = if area_h >= h {
        (area_h - h) / 2
    } else {
        0
    };
    DialogRect { x: (area_w - w) / 2, y, width: w, height: h }
}

fn search_chars(query: &str) -> (r: String)
    ensures
        r@ == search_text(query@),
{
    let q = chars_of(query);
    let mut t = chars_of(" 搜索: ");
    if q.len() == 0 {
        extend_chars(&mut t, &chars_of("输入关键词过滤..."));
    } else {
        extend_chars(&mut t, &q);
        extend_chars(&mut t, &chars_of("█"));
    }
    assert(t@ =~= search_text(query@));
    string_of(&t)
}

/// What the session list shows in an area of `area_w` by `area_h` cells:
/// the picker's search and matches over `sessions`, `current` the session
/// in use and `today` the local date (`YYYY-MM-DD`) the date groups are
/// named against. A dialog narrower than 16 cells leaves no room for
/// titles; it is only drawn when it shows no session.
pub fn session_list_view(
    area_w: u16,
    area_h: u16,
    picker: &SessionPickerState,
    sessions: &[SessionSummary],
    current: Option<&str>,
    today: &str,
) -> (v: SessionListLayout)
    requires
        area_w >= 16 || !shows_a_session(
            sessions@,
            picker.filtered_indices@,
            list_scroll(picker.selected_index as nat, (list_height(area_h as nat) - 6) as nat) as int,
            list_end(
                picker.filtered_indices@.len(),
                list_scroll(picker.selected_index as nat, (list_height(area_h as nat) - 6) as nat),
                (list_height(area_h as nat) - 6) as nat,
            ) as int,
        ),
    ensures
        v.dialog == list_rect(area_w as nat, area_h as nat),
        v.search@ == search_text(picker.search_query@),
        lines_view(v.lines@) == list_lines(
            sessions@,
            picker.filtered_indices@,
            picker.selected_index as nat,
            match current {
                Some(c) => Some(c@),
                None => None,
            },
            today@,
            area_w as nat,
            area_h as nat,
        ),
        v.help@ == help_line(
            "↑↓选择 Enter切换 Ctrl+D删除 Ctrl+N新建 Esc关闭"@,
            if list_width(area_w as nat) >= 2 {
                (list_width(area_w as nat) - 2) as nat
            } else {
                0
            },
        ),
{
    let dialog = list_rect_of(area_w, area_h);
    let w = dialog.width as usize;
    let rows: usize = (dialog.height - 6) as usize;
    let sel = picker.selected_index;
    let scroll: usize = if sel >= rows {
        sel - rows / 2
    } else {
        0
    };
    let n = picker.filtered_indices.len();
    let to: usize = if n < scroll || n - scroll < rows {
        n
    } else {
        scroll + rows
    };
    let mut lines: Vec<PanelLine> = Vec::new();
    if scroll <= to {
        push_sessions(
            &mut lines,
            sessions,
            picker.filtered_indices.as_slice(),
            sel,
            current,
            today,
            w,
            scroll,
            to,
        );
    } else {
        proof {
            assert(lines_view(lines@) =~= lines_view(lines@) + Seq::<(Seq<char>, LineTone, bool)>::empty());
        }
    }
    if n == 0 {
        push_line(&mut lines, Vec::new(), LineTone::Plain, false);
        push_line(&mut lines, chars_of("  没有找到匹配的会话"), LineTone::Hint, false);
    }
    let iw: usize = if w >= 2 {
        w - 2
    } else {
        0
    };
    let help = string_of(&centred("↑↓选择 Enter切换 Ctrl+D删除 Ctrl+N新建 Esc关闭", iw));
    let search = search_chars(picker.search_query.as_str());
    proof {
        assert(lines_view(lines@) =~= list_lines(
            sessions@,
            picker.filtered_indices@,
            picker.selected_index as nat,
            match current {
                Some(c) => Some(c@),
                None => None,
            },
            today@,
            area_w as nat,
            area_h as nat,
        ));
    }
    SessionListLayout { dialog, search, lines, help }
}

} // verus!

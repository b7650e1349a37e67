//! The chat input box: its text, a cursor, atomic elements (pasted blocks
//! and file mentions that are edited as a whole) and the submit history.
//!
//! Positions handed in and out are byte offsets into the UTF-8 text, as
//! `str` indexing uses them. Inside, the handler keeps the text also as a
//! vector of characters and stores character indices.

use std::ops::Range;
use vstd::prelude::*;

use crate::text::{
    blen, byte_at, byte_len, byte_offset, char_index_at_byte, chars_of, is_boundary,
    lemma_byte_at_injective, lemma_byte_at_strict, lemma_byte_at_total, lemma_encode_append,
    lemma_encode_boundary, lemma_encode_len, splice_chars, string_of, sub_chars,
};
use crate::width::{char_cols, cols_of, str_width, unicode_str_width};
use vstd::string::StringSliceAdditionalSpecFns;
use vstd::utf8::encode_utf8;

verus! {

/// What an atomic element of the input stands for.
#[derive(Debug, Clone, Copy, PartialEq, Eq, Structural)]
pub enum ElementKind {
    Paste,
    FileMention,
}

/// An atomic span of the input, `start..end` in character indices.
#[derive(Debug, Clone, Copy)]
pub struct TextElement {
    pub start: usize,
    pub end: usize,
    pub kind: ElementKind,
}

/// The abstract state of an input handler. `cursor` and the element bounds
/// are character indices into `text`.
pub struct InputView {
    pub text: Seq<char>,
    pub cursor: int,
    pub elements: Seq<TextElement>,
    pub history: Seq<Seq<char>>,
    pub history_index: int,
    pub draft: Option<Seq<char>>,
    pub scroll_row: u16,
    pub area_width: u16,
    pub processing: bool,
}

/// Elements lie inside a text of `len` characters, are non-empty, and are
/// sorted and pairwise disjoint.
pub open spec fn elems_wf(els: Seq<TextElement>, len: int) -> bool {
    &&& forall|i: int|
        0 <= i < els.len() ==> #[trigger] els[i].start < els[i].end && els[i].end <= len
    &&& forall|i: int, j: int|
        0 <= i < j < els.len() ==> #[trigger] els[i].end <= #[trigger] els[j].start
}

/// The character at index `k` belongs to `e`.
pub open spec fn covers(e: TextElement, k: int) -> bool {
    e.start <= k && k < e.end
}

/// `p` lies strictly between the bounds of `e`.
pub open spec fn strictly_inside(e: TextElement, p: int) -> bool {
    e.start < p && p < e.end
}

/// No element has `p` strictly inside it.
pub open spec fn free_at(els: Seq<TextElement>, p: int) -> bool {
    forall|i: int| 0 <= i < els.len() ==> !strictly_inside(#[trigger] els[i], p)
}

/// `e` lies within the span `at..at + removed`.
pub open spec fn swallowed(e: TextElement, at: int, removed: int) -> bool {
    e.start >= at && e.end <= at + removed
}

/// No element overlaps `at..at + removed` without lying within it.
pub open spec fn no_partial_overlap(els: Seq<TextElement>, at: int, removed: int) -> bool {
    forall|i: int|
        0 <= i < els.len() ==> (#[trigger] els[i]).end <= at || els[i].start >= at + removed
            || swallowed(els[i], at, removed)
}

/// Where an element goes when `removed` characters at `at` are replaced by
/// `inserted` characters: elements after the span move, the others stay.
pub open spec fn shift_one(e: TextElement, at: int, removed: int, inserted: int) -> TextElement {
    if e.end <= at {
        e
    } else if e.start >= at + removed {
        TextElement {
            start: (e.start - removed + inserted) as usize,
            end: (e.end - removed + inserted) as usize,
            kind: e.kind,
        }
    } else {
        e
    }
}

/// The elements after replacing `removed` characters at `at` by `inserted`
/// characters: those within the replaced span are dropped, the others are
/// shifted, in their order.
pub open spec fn shift_elems(
    els: Seq<TextElement>,
    at: int,
    removed: int,
    inserted: int,
) -> Seq<TextElement>
    decreases els.len(),
{
    if els.len() == 0 {
        Seq::empty()
    } else {
        let rest = shift_elems(els.drop_last(), at, removed, inserted);
        if swallowed(els.last(), at, removed) {
            rest
        } else {
            rest.push(shift_one(els.last(), at, removed, inserted))
        }
    }
}

/// `text` with the characters `from..to` replaced by `ins`.
pub open spec fn splice(text: Seq<char>, from: int, to: int, ins: Seq<char>) -> Seq<char> {
    text.subrange(0, from) + ins + text.subrange(to, text.len() as int)
}

impl InputView {
    pub open spec fn wf(self) -> bool {
        &&& 0 <= self.cursor <= self.text.len()
        &&& elems_wf(self.elements, self.text.len() as int)
        &&& free_at(self.elements, self.cursor)
        &&& blen(self.text) <= usize::MAX
        &&& 0 <= self.history_index <= self.history.len()
    }

    /// Byte offset of the character index `k`.
    pub open spec fn byte(self, k: int) -> nat {
        byte_at(self.text, k)
    }
}


/// Index of the first element that ends at `p`, or -1.
#[verifier::opaque]
pub open spec fn first_ending_at(els: Seq<TextElement>, p: int) -> int {
    if exists|i: int|
        #![trigger els[i]]
        0 <= i < els.len() && els[i].end == p && forall|j: int| #![trigger els[j]] 0 <= j < i ==> els[j].end != p {
        choose|i: int|
            #![trigger els[i]]
            0 <= i < els.len() && els[i].end == p && forall|j: int| #![trigger els[j]] 0 <= j < i ==> els[j].end != p
    } else {
        -1
    }
}

/// Index of the first element that starts at `p`, or -1.
#[verifier::opaque]
pub open spec fn first_starting_at(els: Seq<TextElement>, p: int) -> int {
    if exists|i: int|
        #![trigger els[i]]
        0 <= i < els.len() && els[i].start == p && forall|j: int| #![trigger els[j]] 0 <= j < i ==> els[j].start != p {
        choose|i: int|
            #![trigger els[i]]
            0 <= i < els.len() && els[i].start == p && forall|j: int| #![trigger els[j]]
                0 <= j < i ==> els[j].start != p
    } else {
        -1
    }
}

/// Index of the first element that has `p` strictly inside, or -1.
#[verifier::opaque]
pub open spec fn first_containing(els: Seq<TextElement>, p: int) -> int {
    if exists|i: int|
        #![trigger els[i]]
        0 <= i < els.len() && strictly_inside(els[i], p) && forall|j: int| #![trigger els[j]]
            0 <= j < i ==> !strictly_inside(els[j], p) {
        choose|i: int|
            #![trigger els[i]]
            0 <= i < els.len() && strictly_inside(els[i], p) && forall|j: int| #![trigger els[j]]
                0 <= j < i ==> !strictly_inside(els[j], p)
    } else {
        -1
    }
}

/// Index of the first element that holds the character at index `k`, or -1.
#[verifier::opaque]
pub open spec fn first_covering(els: Seq<TextElement>, k: int) -> int {
    if exists|i: int|
        #![trigger els[i]]
        0 <= i < els.len() && covers(els[i], k) && forall|j: int| #![trigger els[j]]
            0 <= j < i ==> !covers(els[j], k) {
        choose|i: int|
            #![trigger els[i]]
            0 <= i < els.len() && covers(els[i], k) && forall|j: int| #![trigger els[j]]
                0 <= j < i ==> !covers(els[j], k)
    } else {
        -1
    }
}

/// The character index whose byte offset is `p`.
pub open spec fn char_of(text: Seq<char>, p: int) -> int {
    choose|k: int| 0 <= k <= text.len() && byte_at(text, k) == p
}

/// The character in whose encoding the byte offset `p` falls.
pub open spec fn char_floor(text: Seq<char>, p: int) -> int {
    choose|k: int| 0 <= k < text.len() && #[trigger] byte_at(text, k) < p < byte_at(text, k + 1)
}

impl InputView {
    /// A character index moved off the inside of an element, to the nearer
    /// of its bounds (counted in bytes; the start when both are as near).
    pub open spec fn clamp(self, k: int) -> int {
        let k = if k < self.text.len() { k } else { self.text.len() as int };
        let i = first_containing(self.elements, k);
        if i >= 0 {
            let e = self.elements[i];
            if self.byte(k) - self.byte(e.start as int) <= self.byte(e.end as int) - self.byte(k) {
                e.start as int
            } else {
                e.end as int
            }
        } else {
            k
        }
    }

    /// The cursor that `set_cursor(pos)` gives: the byte offset, capped at
    /// the text's end, as a character index moved off the inside of elements.
    pub open spec fn cursor_for_byte(self, pos: int) -> int {
        let p = if pos < blen(self.text) { pos } else { blen(self.text) as int };
        if is_boundary(self.text, p) {
            self.clamp(char_of(self.text, p))
        } else {
            let k = char_floor(self.text, p);
            let e = self.elements[first_covering(self.elements, k)];
            if p - self.byte(e.start as int) <= self.byte(e.end as int) - p {
                e.start as int
            } else {
                e.end as int
            }
        }
    }

    /// `set_cursor(pos)` is defined: the capped offset is a character
    /// boundary or lies inside an element.
    pub open spec fn byte_pos_ok(self, pos: int) -> bool {
        let p = if pos < blen(self.text) { pos } else { blen(self.text) as int };
        is_boundary(self.text, p) || exists|i: int|
            0 <= i < self.elements.len() && self.byte(self.elements[i].start as int) < p
                && p < self.byte(#[trigger] self.elements[i].end as int)
    }
}

/// Element bounds are never strictly inside an element.
impl InputView {
    /// Where moving left from the character index `pos` lands: the start of
    /// an element that ends at or holds `pos`, else one character back, or
    /// the start of the element that holds that character.
    pub open spec fn prev_boundary(self, pos: int) -> int {
        let els = self.elements;
        if pos == 0 {
            0
        } else if first_ending_at(els, pos) >= 0 {
            els[first_ending_at(els, pos)].start as int
        } else if first_containing(els, pos) >= 0 {
            els[first_containing(els, pos)].start as int
        } else if first_containing(els, pos - 1) >= 0 {
            els[first_containing(els, pos - 1)].start as int
        } else {
            pos - 1
        }
    }

    /// Where moving right from the character index `pos` lands: the end of
    /// an element that starts at or holds `pos`, else one character on, or
    /// the end of the element that starts there.
    pub open spec fn next_boundary(self, pos: int) -> int {
        let els = self.elements;
        if pos >= self.text.len() {
            self.text.len() as int
        } else if first_starting_at(els, pos) >= 0 {
            els[first_starting_at(els, pos)].end as int
        } else if first_containing(els, pos) >= 0 {
            els[first_containing(els, pos)].end as int
        } else if first_starting_at(els, pos + 1) >= 0 {
            els[first_starting_at(els, pos + 1)].end as int
        } else {
            pos + 1
        }
    }
}

/// The span from `pos` to the end of an element that starts at `pos` or one
/// character later cuts no element.
proof fn lemma_next_span(els: Seq<TextElement>, len: int, pos: int, idx: int)
    requires
        elems_wf(els, len),
        0 <= idx < els.len(),
        pos <= els[idx].start <= pos + 1,
        free_at(els, pos),
        forall|i: int| 0 <= i < els.len() && #[trigger] els[i].start == pos ==> i == idx,
    ensures
        no_partial_overlap(els, pos, els[idx].end - pos),
        free_at(els, els[idx].end as int),
{
    lemma_free_at_bounds(els, len, idx);
    assert forall|i: int| 0 <= i < els.len() implies (#[trigger] els[i]).end <= pos
        || els[i].start >= pos + (els[idx].end - pos) || swallowed(els[i], pos, els[idx].end - pos) by {
        if i < idx {
            assert(els[i].end <= els[idx].start);
            assert(!strictly_inside(els[i], pos));
        } else if i > idx {
            assert(els[idx].end <= els[i].start);
        }
    }
}

/// When no element starts at or holds `pos`, the character at `pos` cuts no
/// element and the position after it lies inside none.
proof fn lemma_next_char(els: Seq<TextElement>, len: int, pos: int)
    requires
        elems_wf(els, len),
        0 <= pos < len,
        free_at(els, pos),
        forall|i: int| 0 <= i < els.len() ==> #[trigger] els[i].start != pos,
    ensures
        no_partial_overlap(els, pos, 1),
        free_at(els, pos + 1),
        forall|i: int| 0 <= i < els.len() ==> #[trigger] els[i].start != len,
{
    assert forall|i: int| 0 <= i < els.len() implies (#[trigger] els[i]).end <= pos
        || els[i].start >= pos + 1 || swallowed(els[i], pos, 1) by {
        assert(!strictly_inside(els[i], pos));
    }
    assert forall|i: int| 0 <= i < els.len() implies !strictly_inside(#[trigger] els[i], pos + 1) by {
        assert(!strictly_inside(els[i], pos));
    }
}

/// The texts of the elements, in order.
pub open spec fn payloads(v: InputView) -> Seq<Seq<char>> {
    v.elements.map_values(|e: TextElement| v.text.subrange(e.start as int, e.end as int))
}

/// The entries of `before` that `current` does not hold, in order.
pub open spec fn missing_from(before: Seq<Seq<char>>, current: Seq<Seq<char>>) -> Seq<Seq<char>>
    decreases before.len(),
{
    if before.len() == 0 {
        Seq::empty()
    } else {
        let rest = missing_from(before.drop_last(), current);
        if current.contains(before.last()) {
            rest
        } else {
            rest.push(before.last())
        }
    }
}

pub open spec fn string_views(v: Seq<String>) -> Seq<Seq<char>> {
    v.map_values(|s: String| s@)
}

/// The prompt shown before the input: a spinner while a request runs.
pub open spec fn prompt_prefix(processing: bool) -> Seq<char> {
    if processing {
        "\u{280b} "@
    } else {
        "> "@
    }
}

/// Columns left for text after the prompt, at least one.
pub open spec fn avail_width(area_width: u16, processing: bool) -> int {
    let pw = unicode_str_width(prompt_prefix(processing)) as u16;
    let left: int = if area_width >= pw { area_width - pw } else { 0 };
    if left >= 1 { left } else { 1 }
}

/// Row and column reached after laying out `line` in rows of `avail`
/// columns: a character that does not fit on a non-empty row starts the
/// next row.
pub open spec fn layout(line: Seq<char>, avail: int) -> (int, int)
    decreases line.len(),
{
    if line.len() == 0 {
        (0, 0)
    } else {
        let p = layout(line.drop_last(), avail);
        let w = char_cols(line.last()) as int;
        if p.1 + w > avail && p.1 > 0 {
            (p.0 + 1, w)
        } else {
            (p.0, p.1 + w)
        }
    }
}

/// Number of rows `line` takes.
pub open spec fn visual_rows(line: Seq<char>, avail: int) -> int {
    let p = layout(line, avail);
    if p.1 == 0 && p.0 > 0 {
        p.0
    } else {
        p.0 + 1
    }
}

/// The scan behind `row_pos`, from character `i` at row `r`, column `c`,
/// with `last` the index where the current row began.
pub open spec fn row_pos_from(
    line: Seq<char>,
    target: int,
    pref: int,
    avail: int,
    i: int,
    r: int,
    c: int,
    last: int,
) -> int
    decreases line.len() - i,
{
    if i >= line.len() {
        if r == target {
            line.len() as int
        } else {
            last
        }
    } else if r == target && c >= pref {
        i
    } else {
        let w = char_cols(line[i]) as int;
        if c + w > avail && c > 0 {
            if r + 1 == target && 0 >= pref {
                i
            } else {
                row_pos_from(line, target, pref, avail, i + 1, r + 1, w, i)
            }
        } else {
            row_pos_from(line, target, pref, avail, i + 1, r, c + w, last)
        }
    }
}

/// The index in `line` of the first character on row `target` at column
/// `pref` or later; the end of the line when that row ends first; the start
/// of the last row when the line has fewer rows.
pub open spec fn row_pos(line: Seq<char>, target: int, pref: int, avail: int) -> int {
    row_pos_from(line, target, pref, avail, 0, 0, 0, 0)
}

/// Start of the line that holds index `c`: just after the last newline
/// before `c`.
pub open spec fn line_start(t: Seq<char>, c: int) -> int
    decreases c,
{
    if c <= 0 {
        0
    } else if t[c - 1] == '\n' {
        c
    } else {
        line_start(t, c - 1)
    }
}

/// End of the line that holds index `c`: the first newline at or after
/// `c`, or the end of the text.
pub open spec fn line_end(t: Seq<char>, c: int) -> int
    decreases t.len() - c,
{
    if c >= t.len() {
        t.len() as int
    } else if t[c] == '\n' {
        c
    } else {
        line_end(t, c + 1)
    }
}

/// Rows counted over `t`: the rows of the lines already ended by a newline,
/// and the row and column reached on the line in progress (each line laid
/// out as `layout` does).
pub open spec fn rows_scan(t: Seq<char>, avail: int) -> (int, int, int)
    decreases t.len(),
{
    if t.len() == 0 {
        (0, 0, 0)
    } else {
        let p = rows_scan(t.drop_last(), avail);
        let ch = t.last();
        if ch == '\n' {
            (p.0 + p.1 + 1, 0, 0)
        } else {
            let w = char_cols(ch) as int;
            if p.2 + w > avail && p.2 > 0 {
                (p.0, p.1 + 1, w)
            } else {
                (p.0, p.1, p.2 + w)
            }
        }
    }
}

/// `x` as a `u16`, `u16::MAX` when it does not fit.
pub open spec fn capped(x: int) -> u16 {
    if x > u16::MAX {
        u16::MAX
    } else {
        x as u16
    }
}

impl InputView {
    pub open spec fn avail(self) -> int {
        avail_width(self.area_width, self.processing)
    }

    /// Rows the input takes on screen, and the cursor's row and column
    /// (the column counts the prompt), each capped at `u16::MAX`.
    pub open spec fn visual_info(self) -> (u16, u16, u16) {
        let all = rows_scan(self.text, self.avail());
        let before = rows_scan(self.text.take(self.cursor), self.avail());
        let pw = (unicode_str_width(prompt_prefix(self.processing)) as u16) as int;
        (capped(all.0 + all.1 + 1), capped(before.0 + before.1), capped(pw + before.2))
    }

    /// Whether the cursor sits on the first screen row of the input.
    pub open spec fn on_first_row(self) -> bool {
        let before = self.text.take(self.cursor);
        !before.contains('\n') && layout(before, self.avail()).0 == 0
    }

    /// Whether the cursor sits on the last screen row of the input: no line
    /// break follows it, and it is on the last screen row of its own line.
    pub open spec fn on_last_row(self) -> bool {
        let t = self.text;
        let after = t.skip(self.cursor);
        let ls = line_start(t, self.cursor);
        let total = visual_rows(t.subrange(ls, t.len() as int), self.avail());
        let last = if total >= 1 { total - 1 } else { 0 };
        !after.contains('\n') && layout(t.subrange(ls, self.cursor), self.avail()).0 >= last
    }

    /// The cursor after moving one screen row up, keeping its column.
    pub open spec fn cursor_up(self) -> int {
        let t = self.text;
        let a = self.avail();
        let ls = line_start(t, self.cursor);
        let cur = t.subrange(ls, self.cursor);
        let p = layout(cur, a);
        if p.0 > 0 {
            self.clamp(ls + row_pos(cur, p.0 - 1, p.1, a))
        } else if ls > 0 {
            let pe = ls - 1;
            let ps = line_start(t, pe);
            let prev = t.subrange(ps, pe);
            let rows = visual_rows(prev, a);
            let target = if rows >= 1 { rows - 1 } else { 0 };
            self.clamp(ps + row_pos(prev, target, p.1, a))
        } else {
            self.cursor
        }
    }

    /// The cursor after moving one screen row down, keeping its column.
    pub open spec fn cursor_down(self) -> int {
        let t = self.text;
        let a = self.avail();
        let ls = line_start(t, self.cursor);
        let le = line_end(t, self.cursor);
        let cur = t.subrange(ls, le);
        let p = layout(t.subrange(ls, self.cursor), a);
        if p.0 + 1 < visual_rows(cur, a) {
            self.clamp(ls + row_pos(cur, p.0 + 1, p.1, a))
        } else if le < t.len() {
            let ns = le + 1;
            let ne = line_end(t, ns);
            self.clamp(ns + row_pos(t.subrange(ns, ne), 0, p.1, a))
        } else {
            self.cursor
        }
    }
}

impl InputView {
    /// The state after `insert_str(s)`.
    pub open spec fn inserted(self, s: Seq<char>) -> InputView {
        if s.len() == 0 {
            self
        } else {
            InputView {
                text: splice(self.text, self.cursor, self.cursor, s),
                cursor: self.cursor + s.len(),
                elements: shift_elems(self.elements, self.cursor, 0, s.len() as int),
                ..self
            }
        }
    }

    /// The state after `delete_backward()`.
    pub open spec fn deleted_backward(self) -> InputView {
        if self.cursor == 0 {
            self
        } else {
            let t = self.prev_boundary(self.cursor);
            InputView {
                text: splice(self.text, t, self.cursor, Seq::empty()),
                cursor: t,
                elements: shift_elems(self.elements, t, self.cursor - t, 0),
                ..self
            }
        }
    }

    /// The state after `delete_forward()`.
    pub open spec fn deleted_forward(self) -> InputView {
        if self.cursor >= self.text.len() {
            self
        } else {
            let t = self.next_boundary(self.cursor);
            InputView {
                text: splice(self.text, self.cursor, t, Seq::empty()),
                cursor: self.cursor,
                elements: shift_elems(self.elements, self.cursor, t - self.cursor, 0),
                ..self
            }
        }
    }

    /// The state after `submit(input)`.
    pub open spec fn submitted(self, input: Seq<char>) -> InputView {
        InputView {
            text: Seq::empty(),
            cursor: 0,
            elements: Seq::empty(),
            history: self.history.push(input),
            history_index: self.history.len() + 1 as int,
            draft: None,
            ..self
        }
    }

    /// The state after `history_prev()`.
    pub open spec fn history_back(self) -> InputView {
        let draft = if self.history_index == self.history.len() && self.text.len() > 0 {
            Some(self.text)
        } else {
            self.draft
        };
        if self.history_index > 0 {
            let t = self.history[self.history_index - 1];
            InputView {
                text: t,
                cursor: t.len() as int,
                elements: Seq::empty(),
                history_index: self.history_index - 1,
                draft,
                ..self
            }
        } else {
            InputView { draft, ..self }
        }
    }

    /// The state after `history_next()`.
    pub open spec fn history_forward(self) -> InputView {
        if self.history_index < self.history.len() {
            let i = self.history_index + 1;
            if i < self.history.len() {
                InputView {
                    text: self.history[i],
                    cursor: self.history[i].len() as int,
                    elements: Seq::empty(),
                    history_index: i,
                    ..self
                }
            } else {
                let t = match self.draft {
                    Some(d) => d,
                    None => Seq::empty(),
                };
                InputView {
                    text: t,
                    cursor: t.len() as int,
                    elements: Seq::empty(),
                    history_index: i,
                    draft: None,
                    ..self
                }
            }
        } else {
            self
        }
    }
}

/// How many leading elements start before `at`.
pub open spec fn count_before(els: Seq<TextElement>, at: int) -> int
    decreases els.len(),
{
    if els.len() == 0 {
        0
    } else if els[0].start < at {
        1 + count_before(els.drop_first(), at)
    } else {
        0
    }
}

impl InputView {
    /// The state after `insert_element(payload, kind)`: the payload is
    /// inserted as text and becomes an element, placed among the others by
    /// its start.
    pub open spec fn element_inserted(self, payload: Seq<char>, kind: ElementKind) -> InputView {
        if payload.len() == 0 {
            self
        } else {
            let c = self.cursor;
            let n = payload.len() as int;
            let sh = shift_elems(self.elements, c, 0, n);
            let e = TextElement { start: c as usize, end: (c + n) as usize, kind };
            InputView {
                text: splice(self.text, c, c, payload),
                cursor: c + n,
                elements: sh.insert(count_before(sh, c), e),
                ..self
            }
        }
    }
}

proof fn lemma_free_at_bounds(els: Seq<TextElement>, len: int, i: int)
    requires
        elems_wf(els, len),
        0 <= i < els.len(),
    ensures
        free_at(els, els[i].start as int),
        free_at(els, els[i].end as int),
{
    assert forall|j: int| 0 <= j < els.len() implies !strictly_inside(
        #[trigger] els[j],
        els[i].start as int,
    ) by {
        if j < i {
            assert(els[j].end <= els[i].start);
        } else if j > i {
            assert(els[i].end <= els[j].start);
        }
    }
    assert forall|j: int| 0 <= j < els.len() implies !strictly_inside(
        #[trigger] els[j],
        els[i].end as int,
    ) by {
        if j < i {
            assert(els[j].end <= els[i].start);
        } else if j > i {
            assert(els[i].end <= els[j].start);
        }
    }
}

proof fn lemma_shift_wf(els: Seq<TextElement>, at: int, removed: int, inserted: int, len: int)
    requires
        elems_wf(els, len),
        0 <= at,
        0 <= removed,
        0 <= inserted,
        at + removed <= len,
        len - removed + inserted <= usize::MAX,
        no_partial_overlap(els, at, removed),
    ensures
        elems_wf(shift_elems(els, at, removed, inserted), len - removed + inserted),
        forall|k: int|
            0 <= k < shift_elems(els, at, removed, inserted).len() ==> (#[trigger] shift_elems(
                els,
                at,
                removed,
                inserted,
            )[k]).end <= at || shift_elems(els, at, removed, inserted)[k].start >= at + inserted,
        forall|k: int|
            0 <= k < shift_elems(els, at, removed, inserted).len() ==> exists|j: int|
                0 <= j < els.len() && !swallowed(els[j], at, removed) && (#[trigger] shift_elems(
                    els,
                    at,
                    removed,
                    inserted,
                )[k]) == shift_one(els[j], at, removed, inserted),
    decreases els.len(),
{
    if els.len() > 0 {
        let init = els.drop_last();
        assert(elems_wf(init, len));
        assert(no_partial_overlap(init, at, removed)) by {
            assert forall|i: int| 0 <= i < init.len() implies (#[trigger] init[i]).end <= at
                || init[i].start >= at + removed || swallowed(init[i], at, removed) by {
                assert(init[i] == els[i]);
            }
        }
        lemma_shift_wf(init, at, removed, inserted, len);
        let rest = shift_elems(init, at, removed, inserted);
        let e = els.last();
        assert(els[els.len() - 1] == e);
        if !swallowed(e, at, removed) {
            let x = shift_one(e, at, removed, inserted);
            let r = rest.push(x);
            assert forall|k: int| 0 <= k < rest.len() implies (#[trigger] rest[k]).end <= x.start by {
                let j = choose|j: int|
                    0 <= j < init.len() && !swallowed(init[j], at, removed) && rest[k]
                        == shift_one(init[j], at, removed, inserted);
                assert(init[j] == els[j]);
                assert(els[j].end <= els[els.len() - 1].start);
            }
            assert(elems_wf(r, len - removed + inserted)) by {
                assert forall|i: int, j: int| 0 <= i < j < r.len() implies #[trigger] r[i].end
                    <= #[trigger] r[j].start by {
                    if j == r.len() - 1 {
                        assert(r[i] == rest[i]);
                    } else {
                        assert(r[i] == rest[i]);
                        assert(r[j] == rest[j]);
                    }
                }
                assert forall|i: int| 0 <= i < r.len() implies #[trigger] r[i].start < r[i].end
                    && r[i].end <= len - removed + inserted by {
                    if i < r.len() - 1 {
                        assert(r[i] == rest[i]);
                    }
                }
            }
            assert forall|k: int| 0 <= k < r.len() implies exists|j: int|
                0 <= j < els.len() && !swallowed(els[j], at, removed) && (#[trigger] r[k])
                    == shift_one(els[j], at, removed, inserted) by {
                if k == r.len() - 1 {
                    assert(els[els.len() - 1] == e);
                } else {
                    assert(r[k] == rest[k]);
                    let j = choose|j: int|
                        0 <= j < init.len() && !swallowed(init[j], at, removed) && rest[k]
                            == shift_one(init[j], at, removed, inserted);
                    assert(init[j] == els[j]);
                }
            }
            assert forall|k: int| 0 <= k < r.len() implies (#[trigger] r[k]).end <= at || r[k].start
                >= at + inserted by {
                if k < r.len() - 1 {
                    assert(r[k] == rest[k]);
                }
            }
        }
    }
}

/// `els` after the replacement, computed in a new vector.
fn shifted(els: &Vec<TextElement>, at: usize, removed: usize, inserted: usize) -> (r: Vec<
    TextElement,
>)
    requires
        at + removed <= usize::MAX,
        forall|i: int| 0 <= i < els@.len() ==> #[trigger] els@[i].start <= els@[i].end,
        forall|i: int|
            0 <= i < els@.len() ==> #[trigger] els@[i].start >= at + removed ==> els@[i].end
                - removed + inserted <= usize::MAX,
    ensures
        r@ == shift_elems(els@, at as int, removed as int, inserted as int),
{
    let mut r: Vec<TextElement> = Vec::new();
    let mut i: usize = 0;
    while i < els.len()
        invariant
            i <= els@.len(),
            at + removed <= usize::MAX,
            forall|i: int| 0 <= i < els@.len() ==> #[trigger] els@[i].start <= els@[i].end,
            forall|i: int|
                0 <= i < els@.len() ==> #[trigger] els@[i].start >= at + removed ==> els@[i].end
                    - removed + inserted <= usize::MAX,
            r@ == shift_elems(els@.take(i as int), at as int, removed as int, inserted as int),
        decreases els@.len() - i,
    {
        let e = els[i];
        proof {
            assert(els@.take(i + 1).drop_last() =~= els@.take(i as int));
            assert(els@.take(i + 1).last() == els@[i as int]);
        }
        if e.start >= at && e.end <= at + removed {
        } else if e.end <= at {
            r.push(e);
        } else if e.start >= at + removed {
            r.push(
                TextElement {
                    start: e.start - removed + inserted,
                    end: e.end - removed + inserted,
                    kind: e.kind,
                },
            );
        } else {
            r.push(e);
        }
        i = i + 1;
    }
    assert(els@.take(els@.len() as int) =~= els@);
    r
}

/// The input box.
pub struct InputHandler {
    text: String,
    chars: Vec<char>,
    cursor: usize,
    elements: Vec<TextElement>,
    input_history: Vec<String>,
    history_index: usize,
    input_draft: Option<String>,
    input_scroll_row: u16,
    last_area_width: u16,
    is_processing: bool,
}

pub open spec fn opt_view(o: Option<String>) -> Option<Seq<char>> {
    match o {
        Some(s) => Some(s@),
        None => None,
    }
}

/// `x` as a `u16`, `u16::MAX` when it does not fit.
fn cap_u16(x: usize) -> (r: u16)
    ensures
        r == capped(x as int),
{
    if x > 65535 {
        u16::MAX
    } else {
        x as u16
    }
}

impl View for InputHandler {
    type V = InputView;

    closed spec fn view(&self) -> InputView {
        InputView {
            text: self.chars@,
            cursor: self.cursor as int,
            elements: self.elements@,
            history: self.input_history@.map_values(|s: String| s@),
            history_index: self.history_index as int,
            draft: opt_view(self.input_draft),
            scroll_row: self.input_scroll_row,
            area_width: self.last_area_width,
            processing: self.is_processing,
        }
    }
}

impl InputHandler {
    /// The handler's internal invariant.
    pub closed spec fn wf(&self) -> bool {
        &&& self@.wf()
        &&& self.text@ == self.chars@
    }

    /// A well-formed input box has a well-formed view: the cursor is in the
    /// text and outside every element, and the elements are ordered,
    /// disjoint and within the text.
    pub proof fn lemma_view_wf(&self)
        requires
            self.wf(),
        ensures
            self@.wf(),
    {
    }




    /// Whether a newline occurs among the characters `from..to`.
    fn has_newline(&self, from: usize, to: usize) -> (b: bool)
        requires
            from <= to <= self@.text.len(),
        ensures
            b == self@.text.subrange(from as int, to as int).contains('\n'),
    {
        let ghost seg = self@.text.subrange(from as int, to as int);
        let mut i = from;
        while i < to
            invariant
                from <= i <= to <= self@.text.len(),
                seg == self@.text.subrange(from as int, to as int),
                forall|j: int| from <= j < i ==> self@.text[j] != '\n',
            decreases to - i,
        {
            if self.chars[i] == '\n' {
                proof {
                    assert(seg[i - from] == '\n');
                }
                return true;
            }
            i = i + 1;
        }
        proof {
            assert forall|j: int| 0 <= j < seg.len() implies seg[j] != '\n' by {
                assert(seg[j] == self@.text[from + j]);
            }
        }
        false
    }

    /// Index just after the last newline before `c`, or 0.
    fn line_start_of(&self, c: usize) -> (r: usize)
        requires
            c <= self@.text.len(),
        ensures
            r == line_start(self@.text, c as int),
            r <= c,
    {
        let mut i = c;
        while i > 0 && self.chars[i - 1] != '\n'
            invariant
                i <= c <= self@.text.len(),
                line_start(self@.text, i as int) == line_start(self@.text, c as int),
            decreases i,
        {
            i = i - 1;
        }
        i
    }

    /// Index of the first newline at or after `c`, or the text's length.
    fn line_end_of(&self, c: usize) -> (r: usize)
        requires
            c <= self@.text.len(),
        ensures
            r == line_end(self@.text, c as int),
            c <= r <= self@.text.len(),
    {
        let mut i = c;
        while i < self.chars.len() && self.chars[i] != '\n'
            invariant
                c <= i <= self@.text.len(),
                line_end(self@.text, i as int) == line_end(self@.text, c as int),
            decreases self@.text.len() - i,
        {
            i = i + 1;
        }
        i
    }

    // ===== Visual row cursor movement =====
    pub fn cursor_on_first_visual_row(&self) -> (b: bool)
        requires
            self.wf(),
        ensures
            b == self@.on_first_row(),
    {
        proof {
            assert(self@.text.take(self@.cursor) =~= self@.text.subrange(0, self@.cursor));
        }
        if self.has_newline(0, self.cursor) {
            return false;
        }
        let avail = self.text_avail_width();
        let (vrow, _) = self.visual_row_col_in_line(0, self.cursor, avail);
        vrow == 0
    }

    pub fn cursor_on_last_visual_row(&self) -> (b: bool)
        requires
            self.wf(),
        ensures
            b == self@.on_last_row(),
    {
        proof {
            assert(self@.text.skip(self@.cursor) =~= self@.text.subrange(
                self@.cursor,
                self@.text.len() as int,
            ));
        }
        if self.has_newline(self.cursor, self.chars.len()) {
            return false;
        }
        let avail = self.text_avail_width();
        let ls = self.line_start_of(self.cursor);
        let total = self.visual_rows_of_line(ls, self.chars.len(), avail);
        let (vrow, _) = self.visual_row_col_in_line(ls, self.cursor, avail);
        let last = if total >= 1 {
            total - 1
        } else {
            0
        };
        vrow >= last
    }

    /// Rows of the input and the cursor's screen row and column (see
    /// `InputView::visual_info`).
    pub fn compute_visual_info(&self) -> (r: (u16, u16, u16))
        requires
            self.wf(),
        ensures
            r == self@.visual_info(),
    {
        let prefix = if self.is_processing {
            "\u{280b} "
        } else {
            "> "
        };
        let prefix_w = str_width(prefix) as u16;
        let avail = self.text_avail_width();
        let ghost t = self@.text;
        let n = self.chars.len();
        let mut done: usize = 0;
        let mut row: usize = 0;
        let mut col: usize = 0;
        let mut cur_rows: usize = 0;
        let mut cur_col: usize = 0;
        let mut i: usize = 0;
        while i < n
            invariant
                i <= n == t.len(),
                t == self@.text,
                self@.cursor <= t.len(),
                (done as int, row as int, col as int) == rows_scan(t.take(i as int), avail as int),
                done + row <= i,
                col <= avail + 3,
                cur_col <= avail + 3,
                i > self@.cursor ==> (cur_rows as int, cur_col as int) == ({
                    let b = rows_scan(t.take(self@.cursor), avail as int);
                    (b.0 + b.1, b.2)
                }),
            decreases n - i,
        {
            if i == self.cursor {
                cur_rows = done + row;
                cur_col = col;
            }
            let ch = self.chars[i];
            proof {
                assert(t.take(i + 1).drop_last() =~= t.take(i as int));
                assert(t.take(i + 1).last() == ch);
            }
            if ch == '\n' {
                done = done + row + 1;
                row = 0;
                col = 0;
            } else {
                let w = cols_of(ch);
                if col + w > avail as usize && col > 0 {
                    row = row + 1;
                    col = w;
                } else {
                    col = col + w;
                }
            }
            i = i + 1;
        }
        proof {
            assert(t.take(n as int) =~= t);
        }
        if self.cursor == n {
            cur_rows = done + row;
            cur_col = col;
        }
        let total = if done + row >= 65535 {
            65535
        } else {
            done + row + 1
        };
        let c = prefix_w as usize + cur_col;
        (cap_u16(total), cap_u16(cur_rows), cap_u16(c))
    }

    pub fn move_cursor_up(&mut self)
        requires
            old(self).wf(),
        ensures
            final(self).wf(),
            final(self)@ == (InputView { cursor: old(self)@.cursor_up(), ..old(self)@ }),
    {
        let text_avail = self.text_avail_width();
        let ls = self.line_start_of(self.cursor);
        let (vrow, vcol) = self.visual_row_col_in_line(ls, self.cursor, text_avail);
        if vrow > 0 {
            let new_pos = self.byte_pos_for_visual_row(ls, self.cursor, vrow - 1, vcol, text_avail);
            self.cursor = self.clamp_to_boundary(ls + new_pos);
        } else if ls > 0 {
            let prev_end = ls - 1;
            let prev_start = self.line_start_of(prev_end);
            let prev_vrows = self.visual_rows_of_line(prev_start, prev_end, text_avail);
            let target = if prev_vrows >= 1 {
                prev_vrows - 1
            } else {
                0
            };
            let new_pos = self.byte_pos_for_visual_row(
                prev_start,
                prev_end,
                target,
                vcol,
                text_avail,
            );
            self.cursor = self.clamp_to_boundary(prev_start + new_pos);
        }
    }

    pub fn move_cursor_down(&mut self)
        requires
            old(self).wf(),
        ensures
            final(self).wf(),
            final(self)@ == (InputView { cursor: old(self)@.cursor_down(), ..old(self)@ }),
    {
        let text_avail = self.text_avail_width();
        let ls = self.line_start_of(self.cursor);
        let le = self.line_end_of(self.cursor);
        let (vrow, vcol) = self.visual_row_col_in_line(ls, self.cursor, text_avail);
        let total_vrows = self.visual_rows_of_line(ls, le, text_avail);
        if vrow + 1 < total_vrows {
            let new_pos = self.byte_pos_for_visual_row(ls, le, vrow + 1, vcol, text_avail);
            self.cursor = self.clamp_to_boundary(ls + new_pos);
        } else if le < self.chars.len() {
            let next_start = le + 1;
            let next_end = self.line_end_of(next_start);
            let new_pos = self.byte_pos_for_visual_row(next_start, next_end, 0, vcol, text_avail);
            self.cursor = self.clamp_to_boundary(next_start + new_pos);
        }
    }

    // ===== Internal helpers =====
    fn text_avail_width(&self) -> (w: u16)
        ensures
            w == self@.avail(),
    {
        let prefix = if self.is_processing {
            "\u{280b} "
        } else {
            "> "
        };
        let prefix_w = str_width(prefix) as u16;
        let left = self.last_area_width.saturating_sub(prefix_w);
        if left >= 1 {
            left
        } else {
            1
        }
    }

    /// Row and column after laying out the characters `from..to`.
    fn visual_row_col_in_line(&self, from: usize, to: usize, text_avail: u16) -> (r: (usize, usize))
        requires
            from <= to <= self@.text.len(),
        ensures
            r.0 == layout(self@.text.subrange(from as int, to as int), text_avail as int).0,
            r.1 == layout(self@.text.subrange(from as int, to as int), text_avail as int).1,
            r.0 == 0 || r.0 < to - from,
    {
        let ghost line = self@.text.subrange(from as int, to as int);
        let mut vrow: usize = 0;
        let mut vcol: usize = 0;
        let mut i: usize = from;
        while i < to
            invariant
                from <= i <= to <= self@.text.len(),
                line == self@.text.subrange(from as int, to as int),
                vrow as int == layout(line.take(i - from), text_avail as int).0,
                vcol as int == layout(line.take(i - from), text_avail as int).1,
                vrow == 0 || vrow < i - from,
                vcol > 0 ==> i > from,
                vcol <= text_avail + 3,
            decreases to - i,
        {
            let w = cols_of(self.chars[i]);
            proof {
                let k = i - from;
                assert(line.take(k + 1).drop_last() =~= line.take(k));
                assert(line.take(k + 1).last() == self@.text[i as int]);
            }
            if vcol + w > text_avail as usize && vcol > 0 {
                vrow = vrow + 1;
                vcol = 0;
            }
            vcol = vcol + w;
            i = i + 1;
        }
        proof {
            assert(line.take(to - from) =~= line);
        }
        (vrow, vcol)
    }

    fn visual_rows_of_line(&self, from: usize, to: usize, text_avail: u16) -> (n: usize)
        requires
            from <= to <= self@.text.len(),
        ensures
            n == visual_rows(self@.text.subrange(from as int, to as int), text_avail as int),
    {
        let (vrow, vcol) = self.visual_row_col_in_line(from, to, text_avail);
        if vcol == 0 && vrow > 0 {
            vrow
        } else {
            vrow + 1
        }
    }

    /// The offset from `from` of the character on row `target_vrow` at the
    /// preferred column, within the line `from..to` (see `row_pos`).
    fn byte_pos_for_visual_row(
        &self,
        from: usize,
        to: usize,
        target_vrow: usize,
        preferred_col: usize,
        text_avail: u16,
    ) -> (k: usize)
        requires
            from <= to <= self@.text.len(),
        ensures
            k == row_pos(
                self@.text.subrange(from as int, to as int),
                target_vrow as int,
                preferred_col as int,
                text_avail as int,
            ),
            k <= to - from,
    {
        let ghost line = self@.text.subrange(from as int, to as int);
        let ghost goal = row_pos(line, target_vrow as int, preferred_col as int, text_avail as int);
        let mut vrow: usize = 0;
        let mut vcol: usize = 0;
        let mut last: usize = 0;
        let mut i: usize = from;
        while i < to
            invariant
                from <= i <= to <= self@.text.len(),
                line == self@.text.subrange(from as int, to as int),
                goal == row_pos(line, target_vrow as int, preferred_col as int, text_avail as int),
                goal == row_pos_from(
                    line,
                    target_vrow as int,
                    preferred_col as int,
                    text_avail as int,
                    i - from,
                    vrow as int,
                    vcol as int,
                    last as int,
                ),
                vrow <= i - from,
                vcol <= text_avail + 3,
                last <= i - from,
            decreases to - i,
        {
            let k = i - from;
            proof {
                assert(line.len() == to - from);
            }
            if vrow == target_vrow && vcol >= preferred_col {
                proof {
                    assert(row_pos_from(
                        line,
                        target_vrow as int,
                        preferred_col as int,
                        text_avail as int,
                        k as int,
                        vrow as int,
                        vcol as int,
                        last as int,
                    ) == k as int);
                }
                return k;
            }
            let w = cols_of(self.chars[i]);
            proof {
                assert(line[k as int] == self@.text[i as int]);
            }
            if vcol + w > text_avail as usize && vcol > 0 {
                vrow = vrow + 1;
                vcol = 0;
                last = k;
                if vrow == target_vrow && vcol >= preferred_col {
                    proof {
                        assert(goal == k as int);
                    }
                    return k;
                }
            }
            vcol = vcol + w;
            i = i + 1;
        }
        if vrow == target_vrow {
            to - from
        } else {
            last
        }
    }

    // ===== TextElement internals =====
    fn find_element_containing(&self, pos: usize) -> (r: Option<usize>)
        ensures
            match r {
                Some(i) => i < self@.elements.len() && strictly_inside(self@.elements[i as int], pos as int) && i as int == first_containing(
                    self@.elements,
                    pos as int,
                ),
                None => first_containing(self@.elements, pos as int) == -1 && free_at(
                    self@.elements,
                    pos as int,
                ),
            },
    {
        reveal(first_containing);
        let mut i: usize = 0;
        while i < self.elements.len()
            invariant
                i <= self@.elements.len(),
                forall|j: int| 0 <= j < i ==> !strictly_inside(self@.elements[j], pos as int),
            decreases self@.elements.len() - i,
        {
            let e = self.elements[i];
            if pos > e.start && pos < e.end {
                proof {
                    reveal(first_containing);
                    let els = self@.elements;
                    let w = choose|w: int|
                        0 <= w < els.len() && strictly_inside(els[w], pos as int) && forall|j: int|
                            0 <= j < w ==> !strictly_inside(els[j], pos as int);
                    assert(w == i as int);
                }
                return Some(i);
            }
            i = i + 1;
        }
        None
    }

    fn find_element_at_start(&self, pos: usize) -> (r: Option<usize>)
        ensures
            match r {
                Some(i) => i < self@.elements.len() && self@.elements[i as int].start == pos && i as int == first_starting_at(
                    self@.elements,
                    pos as int,
                ),
                None => first_starting_at(self@.elements, pos as int) == -1 && forall|j: int|
                    0 <= j < self@.elements.len() ==> self@.elements[j].start != pos,
            },
    {
        reveal(first_starting_at);
        let mut i: usize = 0;
        while i < self.elements.len()
            invariant
                i <= self@.elements.len(),
                forall|j: int| 0 <= j < i ==> self@.elements[j].start != pos,
            decreases self@.elements.len() - i,
        {
            if self.elements[i].start == pos {
                proof {
                    reveal(first_starting_at);
                    let els = self@.elements;
                    let w = choose|w: int|
                        0 <= w < els.len() && els[w].start == pos && forall|j: int|
                            0 <= j < w ==> els[j].start != pos;
                    assert(w == i as int);
                }
                return Some(i);
            }
            i = i + 1;
        }
        None
    }

    fn find_element_at_end(&self, pos: usize) -> (r: Option<usize>)
        ensures
            match r {
                Some(i) => i < self@.elements.len() && self@.elements[i as int].end == pos && i as int == first_ending_at(
                    self@.elements,
                    pos as int,
                ),
                None => first_ending_at(self@.elements, pos as int) == -1 && forall|j: int|
                    0 <= j < self@.elements.len() ==> self@.elements[j].end != pos,
            },
    {
        reveal(first_ending_at);
        let mut i: usize = 0;
        while i < self.elements.len()
            invariant
                i <= self@.elements.len(),
                forall|j: int| 0 <= j < i ==> self@.elements[j].end != pos,
            decreases self@.elements.len() - i,
        {
            if self.elements[i].end == pos {
                proof {
                    reveal(first_ending_at);
                    let els = self@.elements;
                    let w = choose|w: int|
                        0 <= w < els.len() && els[w].end == pos && forall|j: int|
                            0 <= j < w ==> els[j].end != pos;
                    assert(w == i as int);
                }
                return Some(i);
            }
            i = i + 1;
        }
        None
    }

    fn find_element_covering(&self, k: usize) -> (r: Option<usize>)
        ensures
            match r {
                Some(i) => i < self@.elements.len() && covers(self@.elements[i as int], k as int) && i as int == first_covering(
                    self@.elements,
                    k as int,
                ),
                None => first_covering(self@.elements, k as int) == -1 && forall|j: int|
                    0 <= j < self@.elements.len() ==> !covers(self@.elements[j], k as int),
            },
    {
        reveal(first_covering);
        let mut i: usize = 0;
        while i < self.elements.len()
            invariant
                i <= self@.elements.len(),
                forall|j: int|
                    0 <= j < i ==> !covers(self@.elements[j], k as int),
            decreases self@.elements.len() - i,
        {
            let e = self.elements[i];
            if e.start <= k && k < e.end {
                proof {
                    reveal(first_covering);
                    let els = self@.elements;
                    let w = choose|w: int|
                        0 <= w < els.len() && covers(els[w], k as int) && forall|j: int|
                            #![trigger els[j]]
                            0 <= j < w ==> !covers(els[j], k as int);
                    assert(w == i as int);
                }
                return Some(i);
            }
            i = i + 1;
        }
        None
    }


    #[verifier::spinoff_prover]
    #[verifier::rlimit(30)]
    fn prev_atomic_boundary(&self, pos: usize) -> (r: usize)
        requires
            self.wf(),
            pos <= self@.text.len(),
            free_at(self@.elements, pos as int),
        ensures
            r == self@.prev_boundary(pos as int),
            pos > 0 ==> r < pos,
            r <= pos,
            free_at(self@.elements, r as int),
            no_partial_overlap(self@.elements, r as int, pos - r),
    {
        let ghost els = self@.elements;
        let ghost len = self@.text.len() as int;
        if pos == 0 {
            proof {
                assert(no_partial_overlap(els, 0, 0));
            }
            return 0;
        }
        if let Some(idx) = self.find_element_at_end(pos) {
            proof {
                lemma_free_at_bounds(els, len, idx as int);
                assert forall|i: int| 0 <= i < els.len() implies (#[trigger] els[i]).end
                    <= els[idx as int].start || els[i].start >= pos || swallowed(
                    els[i],
                    els[idx as int].start as int,
                    pos - els[idx as int].start,
                ) by {
                    if i < idx {
                        assert(els[i].end <= els[idx as int].start);
                    } else if i > idx {
                        assert(els[idx as int].end <= els[i].start);
                    }
                }
            }
            return self.elements[idx].start;
        }
        if let Some(idx) = self.find_element_containing(pos) {
            proof {
                assert(false);
            }
            return self.elements[idx].start;
        }
        let b = pos - 1;
        if let Some(idx) = self.find_element_containing(b) {
            proof {
                let e = els[idx as int];
                assert(e.end != pos);
                assert(false);
            }
            return self.elements[idx].start;
        }
        proof {
            assert forall|i: int| 0 <= i < els.len() implies (#[trigger] els[i]).end <= b
                || els[i].start >= pos || swallowed(els[i], b as int, 1) by {
                assert(!strictly_inside(els[i], b as int));
                assert(!strictly_inside(els[i], pos as int));
                assert(els[i].end != pos);
            }
        }
        b
    }

    #[verifier::spinoff_prover]
    #[verifier::rlimit(30)]
    fn next_atomic_boundary(&self, pos: usize) -> (r: usize)
        requires
            self.wf(),
            pos <= self@.text.len(),
            free_at(self@.elements, pos as int),
        ensures
            r == self@.next_boundary(pos as int),
            pos < self@.text.len() ==> r > pos,
            pos <= r <= self@.text.len(),
            free_at(self@.elements, r as int),
            no_partial_overlap(self@.elements, pos as int, r - pos),
    {
        let ghost els = self@.elements;
        let ghost len = self@.text.len() as int;
        if pos >= self.chars.len() {
            proof {
                assert(no_partial_overlap(els, pos as int, 0));
            }
            return self.chars.len();
        }
        if let Some(idx) = self.find_element_at_start(pos) {
            proof {
                lemma_next_span(els, len, pos as int, idx as int);
            }
            return self.elements[idx].end;
        }
        if let Some(idx) = self.find_element_containing(pos) {
            proof {
                assert(false);
            }
            return self.elements[idx].end;
        }
        let target = pos + 1;
        if target < self.chars.len() {
            if let Some(idx) = self.find_element_at_start(target) {
                proof {
                    lemma_next_span(els, len, pos as int, idx as int);
                }
                return self.elements[idx].end;
            }
            proof {
                lemma_next_char(els, len, pos as int);
            }
            target
        } else {
            proof {
                lemma_next_char(els, len, pos as int);
                reveal(first_starting_at);
                assert(first_starting_at(els, target as int) == -1);
            }
            self.chars.len()
        }
    }

    fn clamp_to_boundary(&self, pos: usize) -> (r: usize)
        requires
            self.wf(),
        ensures
            r == self@.clamp(pos as int),
            r <= self@.text.len(),
            free_at(self@.elements, r as int),
    {
        let pos = if pos < self.chars.len() { pos } else { self.chars.len() };
        proof {
            lemma_byte_at_total(self@.text);
        }
        match self.find_element_containing(pos) {
            Some(idx) => {
                let e = self.elements[idx];
                proof {
                    lemma_byte_at_strict(self@.text, e.start as int, pos as int);
                    lemma_byte_at_strict(self@.text, pos as int, e.end as int);
                    lemma_byte_at_strict(self@.text, e.end as int, self@.text.len() as int);
                    lemma_free_at_bounds(self@.elements, self@.text.len() as int, idx as int);
                }
                let bp = byte_offset(&self.chars, pos);
                let bs = byte_offset(&self.chars, e.start);
                let be = byte_offset(&self.chars, e.end);
                let dist_start = bp - bs;
                let dist_end = be - bp;
                if dist_start <= dist_end {
                    e.start
                } else {
                    e.end
                }
            },
            None => pos,
        }
    }

    pub fn new() -> (r: Self)
        ensures
            r.wf(),
            r@.text == Seq::<char>::empty(),
            r@.cursor == 0,
            r@.elements == Seq::<TextElement>::empty(),
            r@.history == Seq::<Seq<char>>::empty(),
            r@.history_index == 0,
            r@.draft is None,
            r@.scroll_row == 0,
            r@.area_width == 80,
            !r@.processing,
    {
        let r = InputHandler {
            text: String::new(),
            chars: Vec::new(),
            cursor: 0,
            elements: Vec::new(),
            input_history: Vec::new(),
            history_index: 0,
            input_draft: None,
            input_scroll_row: 0,
            last_area_width: 80,
            is_processing: false,
        };
        proof {
            assert(r.input_history@.map_values(|s: String| s@) =~= Seq::<Seq<char>>::empty());
            assert(blen(Seq::<char>::empty()) == 0);
        }
        r
    }


    pub fn clear(&mut self)
        requires
            old(self).wf(),
        ensures
            final(self).wf(),
            final(self)@ == (InputView {
                text: Seq::empty(),
                cursor: 0,
                elements: Seq::empty(),
                ..old(self)@
            }),
    {
        self.text = String::new();
        self.chars = Vec::new();
        self.cursor = 0;
        self.elements = Vec::new();
        proof {
            assert(blen(Seq::<char>::empty()) == 0);
        }
    }

    pub fn set_text(&mut self, text: String)
        requires
            old(self).wf(),
        ensures
            final(self).wf(),
            final(self)@ == (InputView {
                text: text@,
                cursor: text@.len() as int,
                elements: Seq::empty(),
                ..old(self)@
            }),
    {
        let chars = chars_of(text.as_str());
        let _n = byte_len(text.as_str());
        self.cursor = chars.len();
        self.chars = chars;
        self.text = text;
        self.elements = Vec::new();
    }

    /// Puts the cursor at the byte offset `pos` (capped at the end of the
    /// text), moved off the inside of any element.
    pub fn set_cursor(&mut self, pos: usize)
        requires
            old(self).wf(),
            old(self)@.byte_pos_ok(pos as int),
        ensures
            final(self).wf(),
            final(self)@ == (InputView { cursor: old(self)@.cursor_for_byte(pos as int), ..old(self)@ }),
    {
        let ghost t = self@.text;
        let total = byte_len(self.text.as_str());
        let p = if pos < total { pos } else { total };
        let k = char_index_at_byte(&self.chars, p);
        let bk = byte_offset(&self.chars, k);
        if bk == p {
            proof {
                assert(is_boundary(t, p as int)) by {
                    assert(byte_at(t, k as int) == p);
                }
                let w = char_of(t, p as int);
                lemma_byte_at_injective(t, w, k as int);
            }
            let c = self.clamp_to_boundary(k);
            self.cursor = c;
        } else {
            proof {
                lemma_byte_at_total(t);
                assert(k < t.len()) by {
                    if k == t.len() {
                        assert(byte_at(t, k as int) == blen(t));
                    }
                }
                assert forall|j: int| 0 <= j <= t.len() implies #[trigger] byte_at(t, j) != p by {
                    if j <= k {
                        lemma_byte_at_strict(t, j, k as int);
                    } else {
                        lemma_byte_at_strict(t, k + 1, j);
                    }
                }
                assert(!is_boundary(t, p as int));
                assert(byte_at(t, k as int) < p < byte_at(t, k + 1));
                let w = char_floor(t, p as int);
                if w < k {
                    lemma_byte_at_strict(t, w + 1, k as int);
                } else if w > k {
                    lemma_byte_at_strict(t, k + 1, w);
                }
                assert(w == k);
                let i = choose|i: int|
                    0 <= i < self@.elements.len() && self@.byte(self@.elements[i].start as int) < p
                        && p < self@.byte(#[trigger] self@.elements[i].end as int);
                let e = self@.elements[i];
                if e.start > k {
                    lemma_byte_at_strict(t, k + 1, e.start as int);
                }
                if e.end <= k {
                    lemma_byte_at_strict(t, e.end as int, k as int);
                }
                assert(covers(e, k as int));
            }
            match self.find_element_covering(k) {
                Some(idx) => {
                    let e = self.elements[idx];
                    proof {
                        lemma_byte_at_strict(t, e.start as int, k as int);
                        lemma_byte_at_strict(t, k + 1, e.end as int);
                        lemma_byte_at_strict(t, e.end as int, t.len() as int);
                        lemma_free_at_bounds(self@.elements, t.len() as int, idx as int);
                    }
                    let bs = byte_offset(&self.chars, e.start);
                    let be = byte_offset(&self.chars, e.end);
                    if p - bs <= be - p {
                        self.cursor = e.start;
                    } else {
                        self.cursor = e.end;
                    }
                },
                None => {},
            }
        }
    }

    // ===== Text editing =====
    /// Inserts `s` at the cursor and puts the cursor after it.
    pub fn insert_str(&mut self, s: &str)
        requires
            old(self).wf(),
            old(self)@.text.len() + s@.len() <= usize::MAX,
        ensures
            final(self).wf(),
            final(self)@ == old(self)@.inserted(s@),
    {
        let ins = chars_of(s);
        if ins.len() == 0 {
            return ;
        }
        let at = self.clamp_to_boundary(self.cursor);
        proof {
            reveal(first_containing);
            assert(first_containing(self@.elements, self@.cursor) == -1);
            assert(at == self.cursor);
            assert(no_partial_overlap(self@.elements, at as int, 0));
        }
        self.splice_text(at, at, &ins);
        self.cursor = at + ins.len();
        proof {
            assert(free_at(self@.elements, self@.cursor)) by {
                assert forall|i: int| 0 <= i < self@.elements.len() implies !strictly_inside(
                    #[trigger] self@.elements[i],
                    self@.cursor,
                ) by {}
            }
        }
    }


    /// Inserts `payload` at the cursor as one atomic element of the given
    /// kind and puts the cursor after it.
    #[verifier::spinoff_prover]
    #[verifier::rlimit(40)]
    pub fn insert_element(&mut self, payload: &str, kind: ElementKind)
        requires
            old(self).wf(),
            old(self)@.text.len() + payload@.len() <= usize::MAX,
        ensures
            final(self).wf(),
            final(self)@ == old(self)@.element_inserted(payload@, kind),
    {
        let ins = chars_of(payload);
        if ins.len() == 0 {
            return ;
        }
        let at = self.clamp_to_boundary(self.cursor);
        proof {
            reveal(first_containing);
            assert(at == self.cursor);
            assert(no_partial_overlap(self@.elements, at as int, 0));
        }
        let end = at + ins.len();
        self.splice_text(at, at, &ins);
        let ghost sh = self@.elements;
        let mut idx: usize = 0;
        proof {
            assert(sh.skip(0) =~= sh);
        }
        while idx < self.elements.len() && self.elements[idx].start < at
            invariant
                idx <= self@.elements.len(),
                self@.elements == sh,
                forall|j: int| 0 <= j < idx ==> #[trigger] sh[j].start < at,
                count_before(sh, at as int) == idx + count_before(sh.skip(idx as int), at as int),
            decreases self@.elements.len() - idx,
        {
            proof {
                assert(sh.skip(idx as int).drop_first() =~= sh.skip(idx + 1));
            }
            idx = idx + 1;
        }
        proof {
            if idx < sh.len() {
                assert(sh.skip(idx as int)[0] == sh[idx as int]);
            } else {
                assert(sh.skip(idx as int).len() == 0);
            }
        }
        let e = TextElement { start: at, end, kind };
        self.elements.insert(idx, e);
        self.cursor = end;
        proof {
            let els = self@.elements;
            let len = self@.text.len() as int;
            assert(els == sh.insert(idx as int, e));
            assert forall|j: int| 0 <= j < sh.len() implies (#[trigger] sh[j]).end <= at
                || sh[j].start >= end by {}
            assert forall|j: int| 0 <= j < idx implies #[trigger] sh[j].end <= at by {
                assert(sh[j].start < at);
            }
            assert forall|j: int| idx <= j < sh.len() implies #[trigger] sh[j].start >= end by {
                if idx < sh.len() {
                    assert(sh[idx as int].start >= at);
                    if j > idx {
                        assert(sh[idx as int].end <= sh[j].start);
                    }
                }
            }
            assert(elems_wf(els, len)) by {
                assert forall|i: int| 0 <= i < els.len() implies #[trigger] els[i].start
                    < els[i].end && els[i].end <= len by {
                    if i < idx {
                        assert(els[i] == sh[i]);
                    } else if i > idx {
                        assert(els[i] == sh[i - 1]);
                    }
                }
                assert forall|i: int, j: int| 0 <= i < j < els.len() implies #[trigger] els[i].end
                    <= #[trigger] els[j].start by {
                    if i < idx {
                        assert(els[i] == sh[i]);
                        if j > idx {
                            assert(els[j] == sh[j - 1]);
                        }
                    } else if i == idx {
                        assert(els[j] == sh[j - 1]);
                    } else {
                        assert(els[i] == sh[i - 1]);
                        assert(els[j] == sh[j - 1]);
                    }
                }
            }
            assert forall|i: int| 0 <= i < els.len() implies !strictly_inside(
                #[trigger] els[i],
                end as int,
            ) by {
                if i < idx {
                    assert(els[i] == sh[i]);
                } else if i > idx {
                    assert(els[i] == sh[i - 1]);
                }
            }
        }
    }

    /// `start..end` widened until no element sticks out of it.
    fn expand_to_element_boundaries(&self, start: usize, end: usize) -> (r: (usize, usize))
        requires
            self.wf(),
            start <= end <= self@.text.len(),
        ensures
            r.0 <= start,
            end <= r.1 <= self@.text.len(),
            r.0 <= r.1,
            no_partial_overlap(self@.elements, r.0 as int, r.1 - r.0),
            no_partial_overlap(self@.elements, start as int, end - start) ==> r == (start, end),
    {
        let ghost els = self@.elements;
        let ghost len = self@.text.len() as int;
        let ghost clean = no_partial_overlap(els, start as int, end - start);
        let mut s = start;
        let mut e = end;
        loop
            invariant
                s <= start <= end <= e <= len,
                elems_wf(els, len),
                els == self@.elements,
                clean == no_partial_overlap(els, start as int, end - start),
                clean ==> s == start && e == end,
            ensures
                s <= start <= end <= e <= len,
                clean ==> s == start && e == end,
                no_partial_overlap(els, s as int, e - s),
            decreases s + (len - e),
        {
            let mut changed = false;
            let ghost s0 = s;
            let ghost e0 = e;
            let mut i: usize = 0;
            while i < self.elements.len()
                invariant
                    i <= els.len(),
                    s <= s0 <= start <= end <= e0 <= e <= len,
                    elems_wf(els, len),
                    els == self@.elements,
                    clean == no_partial_overlap(els, start as int, end - start),
                    clean ==> s == start && e == end,
                    changed == (s != s0 || e != e0),
                    !changed ==> forall|j: int|
                        0 <= j < i ==> (#[trigger] els[j]).end <= s || els[j].start >= e
                            || swallowed(els[j], s as int, e - s),
                decreases els.len() - i,
            {
                let el = self.elements[i];
                if el.start < e && el.end > s {
                    let new_start = if s < el.start { s } else { el.start };
                    let new_end = if e > el.end { e } else { el.end };
                    if new_start != s || new_end != e {
                        proof {
                            if clean {
                                assert(swallowed(els[i as int], start as int, end - start));
                            }
                        }
                        s = new_start;
                        e = new_end;
                        changed = true;
                    }
                }
                i = i + 1;
            }
            if !changed {
                break;
            }
        }
        (s, e)
    }

    /// Replaces the characters `start..end`, widened to whole elements, by
    /// `replacement` and puts the cursor after it.
    fn replace_range(&mut self, start: usize, end: usize, replacement: &str)
        requires
            old(self).wf(),
            start <= end <= old(self)@.text.len(),
            no_partial_overlap(old(self)@.elements, start as int, end - start),
            old(self)@.text.len() - (end - start) + replacement@.len() <= usize::MAX,
        ensures
            final(self).wf(),
            final(self)@ == (InputView {
                text: splice(old(self)@.text, start as int, end as int, replacement@),
                cursor: start + replacement@.len(),
                elements: shift_elems(
                    old(self)@.elements,
                    start as int,
                    end - start,
                    replacement@.len() as int,
                ),
                ..old(self)@
            }),
    {
        let (s, e) = self.expand_to_element_boundaries(start, end);
        let ins = chars_of(replacement);
        self.splice_text(s, e, &ins);
        self.cursor = s + ins.len();
        proof {
            assert forall|i: int| 0 <= i < self@.elements.len() implies !strictly_inside(
                #[trigger] self@.elements[i],
                self@.cursor,
            ) by {}
        }
    }

    /// Deletes what lies before the cursor: one character, or a whole
    /// element that ends at the cursor. Returns whether anything went.
    pub fn delete_backward(&mut self) -> (deleted: bool)
        requires
            old(self).wf(),
        ensures
            final(self).wf(),
            deleted == (old(self)@.cursor > 0),
            final(self)@ == old(self)@.deleted_backward(),
    {
        if self.cursor == 0 {
            return false;
        }
        let target = self.prev_atomic_boundary(self.cursor);
        if target < self.cursor {
            let c = self.cursor;
            let _n = self.chars.len();
            proof {
                reveal_strlit("");
                assert(""@.len() == 0);
            }
            self.replace_range(target, c, "");
            proof {
                assert(""@ =~= Seq::<char>::empty()) by {
                    reveal_strlit("");
                }
            }
            return true;
        }
        false
    }

    /// Deletes what lies after the cursor: one character, or a whole
    /// element (see `next_boundary`). Returns whether anything went.
    pub fn delete_forward(&mut self) -> (deleted: bool)
        requires
            old(self).wf(),
        ensures
            final(self).wf(),
            deleted == (old(self)@.cursor < old(self)@.text.len()),
            final(self)@ == old(self)@.deleted_forward(),
    {
        if self.cursor >= self.chars.len() {
            return false;
        }
        let target = self.next_atomic_boundary(self.cursor);
        if target > self.cursor {
            let c = self.cursor;
            proof {
                reveal_strlit("");
            }
            self.replace_range(c, target, "");
            proof {
                assert(""@ =~= Seq::<char>::empty()) by {
                    reveal_strlit("");
                }
            }
            return true;
        }
        false
    }

    pub fn move_left(&mut self)
        requires
            old(self).wf(),
        ensures
            final(self).wf(),
            final(self)@ == (InputView {
                cursor: old(self)@.prev_boundary(old(self)@.cursor),
                ..old(self)@
            }),
    {
        if self.cursor > 0 {
            self.cursor = self.prev_atomic_boundary(self.cursor);
        }
    }

    pub fn move_right(&mut self)
        requires
            old(self).wf(),
        ensures
            final(self).wf(),
            final(self)@ == (InputView {
                cursor: old(self)@.next_boundary(old(self)@.cursor),
                ..old(self)@
            }),
    {
        if self.cursor < self.chars.len() {
            self.cursor = self.next_atomic_boundary(self.cursor);
        }
    }

    pub fn move_to_start(&mut self)
        requires
            old(self).wf(),
        ensures
            final(self).wf(),
            final(self)@ == (InputView { cursor: 0, ..old(self)@ }),
    {
        self.cursor = 0;
    }

    pub fn move_to_end(&mut self)
        requires
            old(self).wf(),
        ensures
            final(self).wf(),
            final(self)@ == (InputView { cursor: old(self)@.text.len() as int, ..old(self)@ }),
    {
        self.cursor = self.chars.len();
    }


    /// Removes the bytes `range` without regard to elements (the caller
    /// keeps elements whole) and puts the cursor at its start. Does nothing
    /// for an empty range or one that ends past the text.
    pub fn drain_raw(&mut self, range: Range<usize>)
        requires
            old(self).wf(),
            range.start >= range.end || range.end > blen(old(self)@.text) || {
                let t = old(self)@.text;
                &&& is_boundary(t, range.start as int)
                &&& is_boundary(t, range.end as int)
                &&& no_partial_overlap(
                    old(self)@.elements,
                    char_of(t, range.start as int),
                    char_of(t, range.end as int) - char_of(t, range.start as int),
                )
            },
        ensures
            final(self).wf(),
            range.start >= range.end || range.end > blen(old(self)@.text) ==> final(self)@ == old(
                self,
            )@,
            !(range.start >= range.end || range.end > blen(old(self)@.text)) ==> {
                let t = old(self)@.text;
                let s = char_of(t, range.start as int);
                let e = char_of(t, range.end as int);
                final(self)@ == (InputView {
                    text: splice(t, s, e, Seq::empty()),
                    cursor: s,
                    elements: shift_elems(old(self)@.elements, s, e - s, 0),
                    ..old(self)@
                })
            },
    {
        let ghost t = self@.text;
        let total = byte_len(self.text.as_str());
        if range.start >= range.end || range.end > total {
            return ;
        }
        let s = char_index_at_byte(&self.chars, range.start);
        let e = char_index_at_byte(&self.chars, range.end);
        proof {
            let ws = choose|k: int| 0 <= k <= t.len() && #[trigger] byte_at(t, k) == range.start;
            let we = choose|k: int| 0 <= k <= t.len() && #[trigger] byte_at(t, k) == range.end;
            if ws < s {
                lemma_byte_at_strict(t, ws, s as int);
            } else if ws > s {
                lemma_byte_at_strict(t, s + 1, ws);
            }
            if we < e {
                lemma_byte_at_strict(t, we, e as int);
            } else if we > e {
                lemma_byte_at_strict(t, e + 1, we);
            }
            assert(char_of(t, range.start as int) == s) by {
                lemma_byte_at_injective(t, char_of(t, range.start as int), s as int);
            }
            assert(char_of(t, range.end as int) == e) by {
                lemma_byte_at_injective(t, char_of(t, range.end as int), e as int);
            }
            if e < s {
                lemma_byte_at_strict(t, e as int, s as int);
            }
        }
        let ins: Vec<char> = Vec::new();
        let _n = self.chars.len();
        proof {
            assert(ins@.len() == 0);
        }
        self.splice_text(s, e, &ins);
        self.cursor = s;
        proof {
            assert(ins@ =~= Seq::<char>::empty());
            assert forall|i: int| 0 <= i < self@.elements.len() implies !strictly_inside(
                #[trigger] self@.elements[i],
                self@.cursor,
            ) by {}
        }
    }

    // ===== Element accessors =====
    /// Each element as a byte range with its kind.
    pub fn element_info(&self) -> (r: Vec<(Range<usize>, ElementKind)>)
        requires
            self.wf(),
        ensures
            r@.len() == self@.elements.len(),
            forall|i: int|
                0 <= i < r@.len() ==> {
                    let e = self@.elements[i];
                    &&& (#[trigger] r@[i]).0.start == self@.byte(e.start as int)
                    &&& r@[i].0.end == self@.byte(e.end as int)
                    &&& r@[i].1 == e.kind
                },
    {
        let mut r: Vec<(Range<usize>, ElementKind)> = Vec::new();
        let mut i: usize = 0;
        while i < self.elements.len()
            invariant
                self.wf(),
                i <= self@.elements.len(),
                r@.len() == i,
                forall|j: int|
                    0 <= j < i ==> {
                        let e = self@.elements[j];
                        &&& (#[trigger] r@[j]).0.start == self@.byte(e.start as int)
                        &&& r@[j].0.end == self@.byte(e.end as int)
                        &&& r@[j].1 == e.kind
                    },
            decreases self@.elements.len() - i,
        {
            let e = self.elements[i];
            proof {
                lemma_byte_at_strict(self@.text, e.end as int, self@.text.len() as int);
                lemma_byte_at_strict(self@.text, e.start as int, e.end as int);
                lemma_byte_at_total(self@.text);
            }
            let bs = byte_offset(&self.chars, e.start);
            let be = byte_offset(&self.chars, e.end);
            r.push((Range { start: bs, end: be }, e.kind));
            i = i + 1;
        }
        r
    }

    /// The text of each element, in order.
    pub fn element_payloads(&self) -> (r: Vec<String>)
        requires
            self.wf(),
        ensures
            string_views(r@) == payloads(self@),
    {
        let mut r: Vec<String> = Vec::new();
        let mut i: usize = 0;
        while i < self.elements.len()
            invariant
                self.wf(),
                i <= self@.elements.len(),
                string_views(r@) == payloads(self@).take(i as int),
            decreases self@.elements.len() - i,
        {
            let e = self.elements[i];
            let part = sub_chars(&self.chars, e.start, e.end);
            let st = string_of(&part);
            let ghost r0 = r@;
            r.push(st);
            proof {
                assert(payloads(self@)[i as int] == self@.text.subrange(e.start as int, e.end as int));
                assert(string_views(r@) =~= string_views(r0).push(st@));
                assert(payloads(self@).take(i + 1) =~= payloads(self@).take(i as int).push(
                    payloads(self@)[i as int],
                ));
            }
            i = i + 1;
        }
        proof {
            assert(payloads(self@).take(self@.elements.len() as int) =~= payloads(self@));
        }
        r
    }

    /// The entries of `before` that are no element's text any more, in order.
    pub fn removed_elements(&self, before: &[String]) -> (r: Vec<String>)
        requires
            self.wf(),
        ensures
            string_views(r@) == missing_from(string_views(before@), payloads(self@)),
    {
        let current = self.element_payloads();
        let ghost cur = string_views(current@);
        let mut r: Vec<String> = Vec::new();
        let mut i: usize = 0;
        while i < before.len()
            invariant
                i <= before@.len(),
                cur == string_views(current@),
                string_views(r@) == missing_from(string_views(before@).take(i as int), cur),
            decreases before@.len() - i,
        {
            let p = &before[i];
            let mut found = false;
            let mut j: usize = 0;
            while j < current.len()
                invariant
                    j <= current@.len(),
                    cur == string_views(current@),
                    found == (exists|k: int| 0 <= k < j && cur[k] == p@),
                decreases current@.len() - j,
            {
                let same = current[j] == *p;
                proof {
                    assert(cur[j as int] == current@[j as int]@);
                    if !same {
                        assert forall|k: int| 0 <= k < j + 1 && cur[k] == p@ implies k < j by {}
                    }
                }
                if same {
                    found = true;
                }
                j = j + 1;
            }
            proof {
                let bv = string_views(before@);
                assert(bv.take(i + 1).drop_last() =~= bv.take(i as int));
                assert(bv.take(i + 1).last() == p@);
                if found {
                    let k = choose|k: int| 0 <= k < current@.len() && cur[k] == p@;
                    assert(cur.contains(p@));
                } else {
                    assert(!cur.contains(p@));
                }
            }
            if !found {
                r.push(p.clone());
                proof {
                    assert(string_views(r@) =~= string_views(r@).drop_last().push(p@));
                }
            }
            proof {
                let bv = string_views(before@);
                assert(string_views(r@) =~= missing_from(bv.take(i + 1), cur));
            }
            i = i + 1;
        }
        proof {
            assert(string_views(before@).take(before@.len() as int) =~= string_views(before@));
        }
        r
    }


    // ===== State management =====
    pub fn set_processing(&mut self, processing: bool)
        requires
            old(self).wf(),
        ensures
            final(self).wf(),
            final(self)@ == (InputView { processing, ..old(self)@ }),
    {
        self.is_processing = processing;
    }

    pub fn update_area_width(&mut self, width: u16)
        requires
            old(self).wf(),
        ensures
            final(self).wf(),
            final(self)@ == (InputView { area_width: width, ..old(self)@ }),
    {
        self.last_area_width = width;
    }

    pub fn input_scroll_row(&self) -> (r: u16)
        requires
            self.wf(),
        ensures
            r == self@.scroll_row,
    {
        self.input_scroll_row
    }

    pub fn set_input_scroll_row(&mut self, row: u16)
        requires
            old(self).wf(),
        ensures
            final(self).wf(),
            final(self)@ == (InputView { scroll_row: row, ..old(self)@ }),
    {
        self.input_scroll_row = row;
    }

    /// Push current input to history and reset state (called on submit).
    pub fn submit(&mut self, input: &str)
        requires
            old(self).wf(),
        ensures
            final(self).wf(),
            final(self)@ == old(self)@.submitted(input@),
    {
        let entry = string_of(&chars_of(input));
        let ghost h0 = self.input_history@;
        self.input_history.push(entry);
        self.history_index = self.input_history.len();
        self.input_draft = None;
        self.clear();
        proof {
            assert(string_views(self.input_history@) =~= string_views(h0).push(input@));
        }
    }

    /// Reset all input state (for session switch / new session).
    pub fn reset(&mut self)
        requires
            old(self).wf(),
        ensures
            final(self).wf(),
            final(self)@ == (InputView {
                text: Seq::empty(),
                cursor: 0,
                elements: Seq::empty(),
                history: Seq::empty(),
                history_index: 0,
                draft: None,
                scroll_row: 0,
                ..old(self)@
            }),
    {
        self.clear();
        self.input_scroll_row = 0;
        self.input_history = Vec::new();
        self.history_index = 0;
        self.input_draft = None;
        proof {
            assert(string_views(self.input_history@) =~= Seq::<Seq<char>>::empty());
        }
    }

    // ===== History navigation =====
    /// Shows the previous history entry; the text being typed is kept as
    /// the draft when leaving the newest position.
    pub fn history_prev(&mut self)
        requires
            old(self).wf(),
        ensures
            final(self).wf(),
            final(self)@ == old(self)@.history_back(),
    {
        if self.history_index == self.input_history.len() && !self.is_empty() {
            self.input_draft = Some(self.text.clone());
        }
        if self.history_index > 0 {
            self.history_index = self.history_index - 1;
            let t = self.input_history[self.history_index].clone();
            self.set_text(t);
        }
    }

    /// Shows the next history entry, or the saved draft after the newest.
    pub fn history_next(&mut self)
        requires
            old(self).wf(),
        ensures
            final(self).wf(),
            final(self)@ == old(self)@.history_forward(),
    {
        if self.history_index < self.input_history.len() {
            self.history_index = self.history_index + 1;
            if self.history_index < self.input_history.len() {
                let t = self.input_history[self.history_index].clone();
                self.set_text(t);
            } else {
                let draft = match self.input_draft.take() {
                    Some(d) => d,
                    None => String::new(),
                };
                self.set_text(draft);
            }
        }
    }

    // ===== Basic text accessors =====
    pub fn text(&self) -> (s: &str)
        requires
            self.wf(),
        ensures
            s@ == self@.text,
    {
        self.text.as_str()
    }

    /// The cursor as a byte offset.
    pub fn cursor(&self) -> (c: usize)
        requires
            self.wf(),
        ensures
            c == self@.byte(self@.cursor),
    {
        proof {
            lemma_byte_at_strict(self@.text, self@.cursor, self@.text.len() as int);
            lemma_byte_at_total(self@.text);
        }
        byte_offset(&self.chars, self.cursor)
    }

    pub fn is_empty(&self) -> (b: bool)
        requires
            self.wf(),
        ensures
            b == (self@.text.len() == 0),
    {
        self.chars.len() == 0
    }

    pub fn text_before_cursor(&self) -> (s: &str)
        requires
            self.wf(),
        ensures
            s@ == self@.text.take(self@.cursor),
    {
        let b = self.cursor();
        let whole = self.text.as_str();
        proof {
            let t = self@.text;
            let c = self@.cursor;
            lemma_encode_boundary(t, c);
            assert(t =~= t.take(c) + t.skip(c));
            lemma_encode_append(t.take(c), t.skip(c));
            lemma_encode_len(t.take(c));
        }
        let (before, _after) = whole.split_at(b);
        proof {
            let t = self@.text;
            let c = self@.cursor;
            assert(before.spec_bytes() =~= encode_utf8(t.take(c)));
            vstd::utf8::encode_utf8_decode_utf8(before@);
            vstd::utf8::encode_utf8_decode_utf8(t.take(c));
        }
        before
    }

    /// Replaces the characters `from..to` by `ins` and shifts the elements;
    /// the cursor is left for the caller to set.
    fn splice_text(&mut self, from: usize, to: usize, ins: &[char])
        requires
            old(self).wf(),
            from <= to <= old(self)@.text.len(),
            no_partial_overlap(old(self)@.elements, from as int, to - from),
            old(self)@.text.len() - (to - from) + ins@.len() <= usize::MAX,
        ensures
            final(self).text@ == final(self).chars@,
            final(self)@.text == splice(old(self)@.text, from as int, to as int, ins@),
            final(self)@.elements == shift_elems(
                old(self)@.elements,
                from as int,
                to - from,
                ins@.len() as int,
            ),
            elems_wf(final(self)@.elements, final(self)@.text.len() as int),
            forall|k: int|
                0 <= k < final(self)@.elements.len() ==> (#[trigger] final(self)@.elements[k]).end
                    <= from || final(self)@.elements[k].start >= from + ins@.len(),
            blen(final(self)@.text) <= usize::MAX,
            final(self)@.text.len() == old(self)@.text.len() - (to - from) + ins@.len(),
            final(self).cursor == old(self).cursor,
            final(self).input_history == old(self).input_history,
            final(self).history_index == old(self).history_index,
            final(self).input_draft == old(self).input_draft,
            final(self).input_scroll_row == old(self).input_scroll_row,
            final(self).last_area_width == old(self).last_area_width,
            final(self).is_processing == old(self).is_processing,
    {
        let ghost len = self@.text.len() as int;
        proof {
            lemma_shift_wf(self@.elements, from as int, to - from, ins@.len() as int, len);
        }
        let new_chars = splice_chars(&self.chars, from, to, ins);
        let new_text = string_of(&new_chars);
        let _n = byte_len(new_text.as_str());
        let new_elements = shifted(&self.elements, from, to - from, ins.len());
        self.chars = new_chars;
        self.text = new_text;
        self.elements = new_elements;
    }
}

} // verus!

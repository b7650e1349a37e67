//! Properties of the input box that span several operations.

use vstd::prelude::*;

use crate::input::{
    count_before, elems_wf, first_containing, first_ending_at, free_at, missing_from, payloads,
    first_starting_at, shift_elems, shift_one, strictly_inside, swallowed, InputHandler, InputView,
    TextElement,
};

verus! {

proof fn lemma_count_before(els: Seq<TextElement>, at: int)
    ensures
        0 <= count_before(els, at) <= els.len(),
        forall|j: int| 0 <= j < count_before(els, at) ==> #[trigger] els[j].start < at,
        count_before(els, at) < els.len() ==> els[count_before(els, at)].start >= at,
    decreases els.len(),
{
    if els.len() > 0 && els[0].start < at {
        lemma_count_before(els.drop_first(), at);
        assert forall|j: int| 0 <= j < count_before(els, at) implies #[trigger] els[j].start
            < at by {
            if j > 0 {
                assert(els[j] == els.drop_first()[j - 1]);
            }
        }
    }
}

/// Shifting a concatenation shifts each part.
proof fn lemma_shift_concat(
    a: Seq<TextElement>,
    b: Seq<TextElement>,
    at: int,
    removed: int,
    inserted: int,
)
    ensures
        shift_elems(a + b, at, removed, inserted) == shift_elems(a, at, removed, inserted)
            + shift_elems(b, at, removed, inserted),
    decreases b.len(),
{
    if b.len() == 0 {
        assert(a + b =~= a);
        assert(shift_elems(a, at, removed, inserted) + shift_elems(b, at, removed, inserted)
            =~= shift_elems(a, at, removed, inserted));
    } else {
        lemma_shift_concat(a, b.drop_last(), at, removed, inserted);
        assert((a + b).drop_last() =~= a + b.drop_last());
        assert((a + b).last() == b.last());
        let sa = shift_elems(a, at, removed, inserted);
        let sb = shift_elems(b.drop_last(), at, removed, inserted);
        if !swallowed(b.last(), at, removed) {
            assert((sa + sb).push(shift_one(b.last(), at, removed, inserted)) =~= sa + sb.push(
                shift_one(b.last(), at, removed, inserted),
            ));
        }
    }
}

/// Making room for `n` characters at a position no element holds inside,
/// then taking the room away again, gives back the elements.
proof fn lemma_shift_roundtrip(els: Seq<TextElement>, at: int, n: int, len: int)
    requires
        elems_wf(els, len),
        free_at(els, at),
        0 <= at,
        0 <= n,
        len + n <= usize::MAX,
    ensures
        shift_elems(shift_elems(els, at, 0, n), at, n, 0) == els,
    decreases els.len(),
{
    if els.len() > 0 {
        let init = els.drop_last();
        let e = els.last();
        assert(elems_wf(init, len));
        assert(free_at(init, at)) by {
            assert forall|i: int| 0 <= i < init.len() implies !strictly_inside(
                #[trigger] init[i],
                at,
            ) by {
                assert(init[i] == els[i]);
            }
        }
        lemma_shift_roundtrip(init, at, n, len);
        assert(els[els.len() - 1] == e);
        assert(!strictly_inside(els[els.len() - 1], at));
        let x = shift_one(e, at, 0, n);
        assert(!swallowed(e, at, 0));
        assert(shift_elems(els, at, 0, n) == shift_elems(init, at, 0, n).push(x));
        let once = shift_elems(els, at, 0, n);
        assert(once.drop_last() =~= shift_elems(init, at, 0, n));
        assert(once.last() == x);
        assert(!swallowed(x, at, n));
        assert(shift_one(x, at, n, 0) == e);
        assert(els =~= init.push(e));
    }
}

/// Inserting one character and then deleting backward gives back the
/// state as it was.
pub proof fn law_delete_backward_undoes_char_insert(v: InputView, c: char)
    requires
        v.wf(),
        v.text.len() + 1 <= usize::MAX,
    ensures
        v.inserted(seq![c]).deleted_backward() == v,
{
    let n = 1int;
    let at = v.cursor;
    let len = v.text.len() as int;
    let v1 = v.inserted(seq![c]);
    lemma_shift_wf_public(v.elements, at, n, len);
    let els1 = v1.elements;
    assert(v1.cursor == at + 1);
    reveal(first_ending_at);
    reveal(first_containing);
    assert(first_ending_at(els1, at + 1) == -1) by {
        assert forall|i: int| 0 <= i < els1.len() implies #[trigger] els1[i].end != at + 1 by {}
    }
    assert(first_containing(els1, at + 1) == -1) by {
        assert forall|i: int| 0 <= i < els1.len() implies !strictly_inside(#[trigger] els1[i], at + 1) by {}
    }
    assert(first_containing(els1, at) == -1) by {
        assert forall|i: int| 0 <= i < els1.len() implies !strictly_inside(#[trigger] els1[i], at) by {}
    }
    assert(v1.prev_boundary(at + 1) == at);
    lemma_shift_roundtrip(v.elements, at, n, len);
    let v2 = v1.deleted_backward();
    assert(v2.text =~= v.text);
}

/// `lemma_shift_wf`'s facts for making room at a free position.
proof fn lemma_shift_wf_public(els: Seq<TextElement>, at: int, n: int, len: int)
    requires
        elems_wf(els, len),
        free_at(els, at),
        0 <= at <= len,
        0 <= n,
        len + n <= usize::MAX,
    ensures
        elems_wf(shift_elems(els, at, 0, n), len + n),
        forall|k: int|
            0 <= k < shift_elems(els, at, 0, n).len() ==> (#[trigger] shift_elems(
                els,
                at,
                0,
                n,
            )[k]).end <= at || shift_elems(els, at, 0, n)[k].start >= at + n,
    decreases els.len(),
{
    if els.len() > 0 {
        let init = els.drop_last();
        let e = els.last();
        assert(elems_wf(init, len));
        assert(free_at(init, at)) by {
            assert forall|i: int| 0 <= i < init.len() implies !strictly_inside(
                #[trigger] init[i],
                at,
            ) by {
                assert(init[i] == els[i]);
            }
        }
        lemma_shift_wf_public(init, at, n, len);
        assert(els[els.len() - 1] == e);
        let rest = shift_elems(init, at, 0, n);
        let x = shift_one(e, at, 0, n);
        let r = rest.push(x);
        assert(shift_elems(els, at, 0, n) == r);
        assert forall|k: int| 0 <= k < rest.len() implies (#[trigger] rest[k]).end <= x.start by {
            lemma_shift_origin(init, at, n, k);
            let j = choose|j: int| 0 <= j < init.len() && rest[k] == shift_one(init[j], at, 0, n);
            assert(init[j] == els[j]);
            assert(els[j].end <= els[els.len() - 1].start);
        }
        assert(elems_wf(r, len + n)) by {
            assert forall|i: int, j: int| 0 <= i < j < r.len() implies #[trigger] r[i].end
                <= #[trigger] r[j].start by {
                assert(r[i] == rest[i]);
                if j < r.len() - 1 {
                    assert(r[j] == rest[j]);
                }
            }
            assert forall|i: int| 0 <= i < r.len() implies #[trigger] r[i].start < r[i].end
                && r[i].end <= len + n by {
                if i < r.len() - 1 {
                    assert(r[i] == rest[i]);
                }
            }
        }
        assert forall|k: int| 0 <= k < r.len() implies (#[trigger] r[k]).end <= at || r[k].start
            >= at + n by {
            if k < r.len() - 1 {
                assert(r[k] == rest[k]);
            }
        }
    }
}

/// Each element after making room comes from an element before.
proof fn lemma_shift_origin(els: Seq<TextElement>, at: int, n: int, k: int)
    requires
        0 <= k < shift_elems(els, at, 0, n).len(),
    ensures
        exists|j: int|
            0 <= j < els.len() && shift_elems(els, at, 0, n)[k] == shift_one(els[j], at, 0, n),
    decreases els.len(),
{
    if els.len() > 0 {
        let init = els.drop_last();
        let rest = shift_elems(init, at, 0, n);
        if k < rest.len() {
            if !swallowed(els.last(), at, 0) {
                assert(shift_elems(els, at, 0, n)[k] == rest[k]);
            }
            lemma_shift_origin(init, at, n, k);
            let j = choose|j: int| 0 <= j < init.len() && rest[k] == shift_one(init[j], at, 0, n);
            assert(init[j] == els[j]);
        } else {
            assert(els[els.len() - 1] == els.last());
        }
    }
}

/// Inserting an element and then deleting backward removes the whole
/// element and gives back the state as it was.
pub proof fn law_delete_backward_removes_inserted_element(
    v: InputView,
    payload: Seq<char>,
    kind: crate::input::ElementKind,
)
    requires
        v.wf(),
        payload.len() > 0,
        v.text.len() + payload.len() <= usize::MAX,
    ensures
        v.element_inserted(payload, kind).deleted_backward() == v,
{
    let at = v.cursor;
    let n = payload.len() as int;
    let len = v.text.len() as int;
    let sh = shift_elems(v.elements, at, 0, n);
    let e = TextElement { start: at as usize, end: (at + n) as usize, kind };
    let idx = count_before(sh, at);
    let v1 = v.element_inserted(payload, kind);
    let els1 = sh.insert(idx, e);
    lemma_shift_wf_public(v.elements, at, n, len);
    lemma_count_before(sh, at);
    assert(v1.elements == els1);
    assert forall|j: int| 0 <= j < idx implies #[trigger] sh[j].end <= at by {
        assert(sh[j].start < at);
    }
    assert(els1[idx] == e);
    reveal(first_ending_at);
    assert forall|j: int| 0 <= j < idx implies #[trigger] els1[j].end != at + n by {
        assert(els1[j] == sh[j]);
    }
    assert(first_ending_at(els1, at + n) == idx) by {
        let w = choose|w: int|
            #![trigger els1[w]]
            0 <= w < els1.len() && els1[w].end == at + n && forall|j: int|
                #![trigger els1[j]]
                0 <= j < w ==> els1[j].end != at + n;
        if w < idx {
            assert(els1[w] == sh[w]);
        } else if w > idx {
            assert(els1[idx].end == at + n);
        }
    }
    assert(v1.prev_boundary(at + n) == at);
    let v2 = v1.deleted_backward();
    assert(v2.text =~= v.text);
    assert(els1 =~= sh.take(idx) + seq![e] + sh.skip(idx));
    lemma_shift_concat(sh.take(idx) + seq![e], sh.skip(idx), at, n, 0);
    lemma_shift_concat(sh.take(idx), seq![e], at, n, 0);
    assert(seq![e].drop_last() =~= Seq::<TextElement>::empty());
    assert(seq![e].last() == e);
    assert(swallowed(e, at, n));
    assert(shift_elems(Seq::<TextElement>::empty(), at, n, 0) =~= Seq::<TextElement>::empty());
    assert(shift_elems(seq![e], at, n, 0) =~= Seq::<TextElement>::empty());
    lemma_shift_concat(sh.take(idx), sh.skip(idx), at, n, 0);
    assert(sh.take(idx) + sh.skip(idx) =~= sh);
    assert(shift_elems(sh.take(idx), at, n, 0) + Seq::<TextElement>::empty() =~= shift_elems(
        sh.take(idx),
        at,
        n,
        0,
    ));
    lemma_shift_roundtrip(v.elements, at, n, len);
}

/// After a submit, going back in history shows the submitted text with the
/// cursor at its end.
pub proof fn law_submit_then_history_prev(v: InputView, input: Seq<char>)
    requires
        v.wf(),
    ensures
        v.submitted(input).history_back().text == input,
        v.submitted(input).history_back().cursor == input.len(),
        v.submitted(input).history_back().history_index == v.history.len(),
{
}

/// Going back in history from the text being typed and forward again gives
/// back that text, with the cursor at its end.
pub proof fn law_history_prev_next_restores_draft(v: InputView)
    requires
        v.wf(),
        v.history.len() > 0,
        v.history_index == v.history.len(),
        v.text.len() > 0 || v.draft is None,
    ensures
        v.history_back().history_forward().text == v.text,
        v.history_back().history_forward().cursor == v.text.len(),
        v.history_back().history_forward().history_index == v.history_index,
        v.history_back().history_forward().draft is None,
{
}

/// When the elements are unchanged, no element counts as removed.
pub proof fn law_no_element_removed_without_edit(v: InputView)
    ensures
        missing_from(payloads(v), payloads(v)).len() == 0,
{
    let p = payloads(v);
    assert forall|i: int| 0 <= i < p.len() implies p.contains(#[trigger] p[i]) by {}
    lemma_missing_from_contained(p, p);
}

proof fn lemma_missing_from_contained(before: Seq<Seq<char>>, current: Seq<Seq<char>>)
    requires
        forall|i: int| 0 <= i < before.len() ==> current.contains(#[trigger] before[i]),
    ensures
        missing_from(before, current).len() == 0,
    decreases before.len(),
{
    if before.len() > 0 {
        let init = before.drop_last();
        assert forall|i: int| 0 <= i < init.len() implies current.contains(#[trigger] init[i]) by {
            assert(init[i] == before[i]);
        }
        lemma_missing_from_contained(init, current);
        assert(current.contains(before[before.len() - 1]));
    }
}

/// In text without elements, moving left and then right puts the cursor
/// back where it was (unless it was at the start, where left stays put).
pub proof fn law_left_then_right_without_elements(v: InputView)
    requires
        v.wf(),
        v.elements.len() == 0,
        v.cursor > 0,
    ensures
        v.next_boundary(v.prev_boundary(v.cursor)) == v.cursor,
        v.prev_boundary(v.cursor) == v.cursor - 1,
{
    let els = v.elements;
    let c = v.cursor;
    assert(first_ending_at(els, c) == -1) by {
        reveal(first_ending_at);
    }
    assert(first_containing(els, c) == -1) by {
        reveal(first_containing);
    }
    assert(first_containing(els, c - 1) == -1) by {
        reveal(first_containing);
    }
    assert(first_starting_at(els, c - 1) == -1) by {
        reveal(first_starting_at);
    }
    assert(first_starting_at(els, c) == -1) by {
        reveal(first_starting_at);
    }
}

/// One Backspace undoes one typed character, in a well-formed input box.
pub proof fn law_backspace_undoes_typed_char(h: &InputHandler, c: char)
    requires
        h.wf(),
        h@.text.len() + 1 <= usize::MAX,
    ensures
        h@.inserted(seq![c]).deleted_backward() == h@,
{
    h.lemma_view_wf();
    law_delete_backward_undoes_char_insert(h@, c);
}

/// One Backspace removes a whole inserted element and gives back the input
/// box as it was, in a well-formed input box.
pub proof fn law_backspace_undoes_inserted_element(
    h: &InputHandler,
    payload: Seq<char>,
    kind: crate::input::ElementKind,
)
    requires
        h.wf(),
        payload.len() > 0,
        h@.text.len() + payload.len() <= usize::MAX,
    ensures
        h@.element_inserted(payload, kind).deleted_backward() == h@,
{
    h.lemma_view_wf();
    law_delete_backward_removes_inserted_element(h@, payload, kind);
}

} // verus!

//! The permission dialog: moving between its options and its answer, how
//! much of a long request description fits on screen, and the queue of
//! waiting requests that one answer can settle together.

use vstd::prelude::*;

use crate::keys::{KeyCode, KeyEvent};
use crate::timing::TimingStats;
use crate::text::{chars_eq, chars_of, decimal, decimal_chars, extend_chars, string_of};

verus! {

/// Number of options: allow once, allow always (this session), deny.
pub const OPTION_COUNT: usize = 3;

/// The answer to a permission request.
#[derive(Debug, Clone, Copy, PartialEq, Eq, Structural)]
pub enum PermissionReply {
    Once,
    Always,
    Deny,
}

/// The option labels, in order.
pub fn options() -> (r: Vec<&'static str>)
    ensures
        r@.len() == OPTION_COUNT,
{
    let mut r: Vec<&'static str> = Vec::new();
    r.push("Allow once");
    r.push("Allow always (this session)");
    r.push("Deny");
    r
}

/// The digit value of `c`, for `'0'..='9'`.
pub open spec fn digit_value(c: char) -> Option<int> {
    if '0' <= c && c <= '9' {
        Some(c as int - '0' as int)
    } else {
        None
    }
}

/// Whether a key answers the dialog, and the selected option after it: Up
/// and Down move cyclically, a digit 1 to 3 picks and answers, Enter answers,
/// Esc picks Deny and answers.
pub open spec fn dialog_key(code: KeyCode, selected: int) -> (bool, int) {
    match code {
        KeyCode::Up => (false, if selected == 0 {
            OPTION_COUNT - 1
        } else {
            selected - 1
        }),
        KeyCode::Down => (false, (selected + 1) % (OPTION_COUNT as int)),
        KeyCode::Char(c) => match digit_value(c) {
            Some(d) => if 1 <= d <= OPTION_COUNT {
                (true, d - 1)
            } else {
                (false, selected)
            },
            None => (false, selected),
        },
        KeyCode::Enter => (true, selected),
        KeyCode::Esc => (true, 2),
        _ => (false, selected),
    }
}

/// Handles a key in the dialog; returns whether the dialog is answered.
pub fn handle_key(key: KeyEvent, selected: &mut usize) -> (done: bool)
    requires
        *old(selected) < usize::MAX,
    ensures
        (done, *final(selected) as int) == dialog_key(key.code, *old(selected) as int),
{
    match key.code {
        KeyCode::Up => {
            if *selected == 0 {
                *selected = OPTION_COUNT - 1;
            } else {
                *selected = *selected - 1;
            }
            false
        },
        KeyCode::Down => {
            *selected = (*selected + 1) % OPTION_COUNT;
            false
        },
        KeyCode::Char(c) => {
            if '0' <= c && c <= '9' {
                let digit = (c as u32) - ('0' as u32);
                if digit >= 1 && (digit as usize) <= OPTION_COUNT {
                    *selected = (digit - 1) as usize;
                    true
                } else {
                    false
                }
            } else {
                false
            }
        },
        KeyCode::Enter => true,
        KeyCode::Esc => {
            *selected = 2;
            true
        },
        _ => false,
    }
}

/// The answer an option gives (anything past the second is Deny).
pub open spec fn selected_reply(selected: int) -> PermissionReply {
    if selected == 0 {
        PermissionReply::Once
    } else if selected == 1 {
        PermissionReply::Always
    } else {
        PermissionReply::Deny
    }
}

/// The answers of the options, in the order they are listed and numbered.
pub open spec fn option_replies() -> Seq<PermissionReply> {
    seq![PermissionReply::Once, PermissionReply::Always, PermissionReply::Deny]
}

/// Typing the number shown before an option (1 for the first) picks that
/// option and answers the dialog with its reply, whatever was selected
/// before; another digit does nothing; Esc answers Deny.
pub proof fn law_digit_picks_its_option(k: nat, selected: int, other: nat)
    requires
        1 <= k <= OPTION_COUNT,
        other == 0 || OPTION_COUNT < other <= 9,
    ensures
        dialog_key(KeyCode::Char(crate::text::digit_char(k)), selected) == (true, k - 1),
        dialog_key(KeyCode::Char(crate::text::digit_char(other)), selected) == (false, selected),
        selected_reply(dialog_key(KeyCode::Char(crate::text::digit_char(k)), selected).1)
            == option_replies()[k - 1],
        dialog_key(KeyCode::Esc, selected).0,
        selected_reply(dialog_key(KeyCode::Esc, selected).1) == PermissionReply::Deny,
{
}

/// The answer for the selected option (anything past the second is Deny).
pub fn reply_from_selected(selected: usize) -> (r: PermissionReply)
    ensures
        r == selected_reply(selected as int),
{
    match selected {
        0 => PermissionReply::Once,
        1 => PermissionReply::Always,
        _ => PermissionReply::Deny,
    }
}

/// Lines the dialog needs besides the description: a blank line, the
/// options, two border lines and two help lines.
pub const FIXED_LINES: usize = 8;

/// The notice that replaces hidden description lines.
pub open spec fn more_lines_notice(n: nat) -> Seq<char> {
    "… (+"@ + decimal(n) + " more lines)"@
}

/// The description lines that fit a terminal of `height` rows: all when
/// they fit, else the first ones and a notice counting the hidden rest.
pub open spec fn budget_lines(all: Seq<Seq<char>>, height: int) -> Seq<Seq<char>> {
    let max = if height >= FIXED_LINES {
        height - FIXED_LINES
    } else {
        0
    };
    let shown = if max < all.len() {
        max
    } else {
        all.len() as int
    };
    if shown == all.len() {
        all
    } else {
        let keep = if shown >= 1 {
            shown - 1
        } else {
            0
        };
        all.take(keep).push(more_lines_notice((all.len() - keep) as nat))
    }
}

pub open spec fn lines_view(v: Seq<String>) -> Seq<Seq<char>> {
    v.map_values(|s: String| s@)
}

/// The description lines that fit (see `budget_lines`).
pub fn budget_desc_lines(all: Vec<String>, area_height: u16) -> (r: Vec<String>)
    ensures
        lines_view(r@) == budget_lines(lines_view(all@), area_height as int),
{
    let max_desc_lines = (area_height as usize).saturating_sub(FIXED_LINES);
    let shown_count = if max_desc_lines < all.len() {
        max_desc_lines
    } else {
        all.len()
    };
    if shown_count == all.len() {
        return all;
    }
    let keep = shown_count.saturating_sub(1);
    let mut shown: Vec<String> = Vec::new();
    let mut i: usize = 0;
    while i < keep
        invariant
            i <= keep < all@.len(),
            lines_view(shown@) == lines_view(all@).take(i as int),
        decreases keep - i,
    {
        let ghost s0 = shown@;
        shown.push(string_of(&chars_of(all[i].as_str())));
        proof {
            assert(lines_view(shown@) =~= lines_view(s0).push(all@[i as int]@));
            assert(lines_view(all@).take(i + 1) =~= lines_view(all@).take(i as int).push(
                lines_view(all@)[i as int],
            ));
        }
        i = i + 1;
    }
    let mut notice = chars_of("… (+");
    extend_chars(&mut notice, &decimal_chars(all.len() - keep));
    extend_chars(&mut notice, &chars_of(" more lines)"));
    let ghost s1 = shown@;
    shown.push(string_of(&notice));
    proof {
        assert(lines_view(shown@) =~= lines_view(s1).push(notice@));
    }
    shown
}

// ===== The queue of requests =====

/// A permission request waiting in the dialog's queue: an id by which the
/// caller finds the request and its reply channel again, and the subagent
/// that asked (None for the main agent).
#[derive(Debug, Clone)]
pub struct PendingPermission {
    pub id: u64,
    pub group: Option<String>,
}

pub open spec fn pending_view(p: PendingPermission) -> (u64, Option<Seq<char>>) {
    (
        p.id,
        match p.group {
            Some(g) => Some(g@),
            None => None,
        },
    )
}

pub open spec fn queue_view(q: Seq<PendingPermission>) -> Seq<(u64, Option<Seq<char>>)> {
    q.map_values(|p: PendingPermission| pending_view(p))
}

/// Whether a waiting request is answered along with the first one: it
/// comes from the same agent, and the reply is Deny, or Always with the
/// session's new rules covering it.
pub open spec fn answered_along(
    first_group: Option<Seq<char>>,
    group: Option<Seq<char>>,
    reply: PermissionReply,
    covered: bool,
) -> bool {
    group == first_group && (reply == PermissionReply::Deny || (reply == PermissionReply::Always
        && covered))
}

/// Going through the waiting requests after the first, up to `n`: the ids
/// answered along, and the requests still waiting, each in queue order.
pub open spec fn settle_upto(
    q: Seq<(u64, Option<Seq<char>>)>,
    reply: PermissionReply,
    covered: Seq<bool>,
    n: int,
) -> (Seq<u64>, Seq<(u64, Option<Seq<char>>)>)
    decreases n,
{
    if n <= 1 {
        (seq![q[0].0], Seq::empty())
    } else {
        let prev = settle_upto(q, reply, covered, n - 1);
        let p = q[n - 1];
        if answered_along(q[0].1, p.1, reply, covered[n - 1]) {
            (prev.0.push(p.0), prev.1)
        } else {
            (prev.0, prev.1.push(p))
        }
    }
}

/// Answers the first waiting request with `reply`, and with it the other
/// requests of the same agent that the reply settles (`answered_along`;
/// `covered[i]` tells whether the session's rules, with an Always reply
/// added, allow request `i`). Returns the ids answered, first one first;
/// the requests left keep their order. An empty queue answers nothing.
pub fn settle_permissions(
    pending: &mut Vec<PendingPermission>,
    reply: PermissionReply,
    covered: &[bool],
) -> (answered: Vec<u64>)
    requires
        covered@.len() == old(pending)@.len(),
    ensures
        old(pending)@.len() == 0 ==> answered@.len() == 0 && final(pending)@ == old(pending)@,
        old(pending)@.len() > 0 ==> {
            let r = settle_upto(queue_view(old(pending)@), reply, covered@, old(pending)@.len() as int);
            &&& answered@ == r.0
            &&& queue_view(final(pending)@) == r.1
        },
{
    if pending.len() == 0 {
        return Vec::new();
    }
    let ghost q = queue_view(pending@);
    let first_group = match &pending[0].group {
        Some(g) => Some(chars_of(g.as_str())),
        None => None,
    };
    let mut answered: Vec<u64> = Vec::new();
    answered.push(pending[0].id);
    let mut rest: Vec<PendingPermission> = Vec::new();
    let mut i: usize = 1;
    proof {
        assert(answered@ =~= seq![q[0].0]);
        assert(queue_view(rest@) =~= Seq::<(u64, Option<Seq<char>>)>::empty());
    }
    while i < pending.len()
        invariant
            1 <= i <= pending@.len(),
            covered@.len() == pending@.len(),
            q == queue_view(pending@),
            first_group matches Some(g) ==> q[0].1 == Some(g@),
            first_group is None ==> q[0].1 is None,
            (answered@, queue_view(rest@)) == settle_upto(q, reply, covered@, i as int),
        decreases pending@.len() - i,
    {
        let ghost r0 = queue_view(rest@);
        let same = match (&pending[i].group, &first_group) {
            (Some(g), Some(f)) => chars_eq(&chars_of(g.as_str()), f.as_slice()),
            (None, None) => true,
            _ => false,
        };
        let settles = same && match reply {
            PermissionReply::Deny => true,
            PermissionReply::Always => covered[i],
            PermissionReply::Once => false,
        };
        proof {
            assert(q[i as int] == pending_view(pending@[i as int]));
        }
        if settles {
            answered.push(pending[i].id);
        } else {
            let item = PendingPermission {
                id: pending[i].id,
                group: match &pending[i].group {
                    Some(g) => Some(string_of(&chars_of(g.as_str()))),
                    None => None,
                },
            };
            rest.push(item);
            proof {
                assert(queue_view(rest@) =~= r0.push(q[i as int]));
            }
        }
        i = i + 1;
    }
    *pending = rest;
    answered
}

/// Settling a reply loses no request and answers none twice: the ids
/// answered and those still waiting are, together, the ids that waited,
/// each once; the first request is always answered.
pub proof fn law_settle_keeps_every_request(
    q: Seq<(u64, Option<Seq<char>>)>,
    reply: PermissionReply,
    covered: Seq<bool>,
    n: int,
)
    requires
        1 <= n <= q.len(),
    ensures
        ({
            let r = settle_upto(q, reply, covered, n);
            &&& r.0.to_multiset().add(r.1.map_values(|p: (u64, Option<Seq<char>>)| p.0).to_multiset())
                == q.take(n).map_values(|p: (u64, Option<Seq<char>>)| p.0).to_multiset()
            &&& r.0.len() >= 1
            &&& r.0[0] == q[0].0
        }),
    decreases n,
{
    broadcast use vstd::seq_lib::group_to_multiset_ensures;

    let ids = |p: (u64, Option<Seq<char>>)| p.0;
    if n == 1 {
        assert(q.take(1).map_values(ids) =~= seq![q[0].0]);
        assert(Seq::<(u64, Option<Seq<char>>)>::empty().map_values(ids) =~= Seq::<u64>::empty());
        assert(seq![q[0].0] =~= Seq::<u64>::empty().push(q[0].0));
        assert(Seq::<u64>::empty().to_multiset() =~= vstd::multiset::Multiset::empty());
    } else {
        law_settle_keeps_every_request(q, reply, covered, n - 1);
        let prev = settle_upto(q, reply, covered, n - 1);
        let p = q[n - 1];
        assert(q.take(n).map_values(ids) =~= q.take(n - 1).map_values(ids).push(p.0));
        if answered_along(q[0].1, p.1, reply, covered[n - 1]) {
            assert(prev.0.push(p.0)[0] == prev.0[0]);
        } else {
            assert(prev.1.push(p).map_values(ids) =~= prev.1.map_values(ids).push(p.0));
        }
    }
}


/// The open permission dialog: the requests waiting (the first is the one
/// shown) and the option selected.
pub struct PermissionDialog {
    pub pending: Vec<PendingPermission>,
    pub selected: usize,
}

/// A permission request arrives at `now`. With the dialog open it joins the
/// end of the queue, and the request shown and the option selected stay;
/// else the dialog opens on it with the first option selected. Either way
/// the request's clock pauses.
pub fn receive_permission_request(
    dialog: &mut Option<PermissionDialog>,
    request: PendingPermission,
    timing: &mut TimingStats,
    now: u64,
)
    ensures
        *final(timing) == old(timing).after_pause(now),
        (*final(dialog)) is Some,
        (*old(dialog)) is Some ==> {
            &&& queue_view(final(dialog).unwrap().pending@) == queue_view(
                old(dialog).unwrap().pending@,
            ).push(pending_view(request))
            &&& final(dialog).unwrap().selected == old(dialog).unwrap().selected
        },
        (*old(dialog)) is None ==> {
            &&& queue_view(final(dialog).unwrap().pending@) == seq![pending_view(request)]
            &&& final(dialog).unwrap().selected == 0
        },
{
    let ghost r = pending_view(request);
    match dialog {
        Some(d) => {
            let ghost q0 = queue_view(d.pending@);
            d.pending.push(request);
            proof {
                assert(queue_view(d.pending@) =~= q0.push(r));
            }
        },
        None => {
            let mut v: Vec<PendingPermission> = Vec::new();
            v.push(request);
            proof {
                assert(queue_view(v@) =~= seq![r]);
            }
            *dialog = Some(PermissionDialog { pending: v, selected: 0 });
        },
    }
    timing.pause(now);
}

/// A request that arrives while the dialog shows another is queued behind
/// it: the request shown stays first, the others keep their places, and the
/// new one comes last.
pub proof fn law_queued_request_keeps_shown_one(
    before: Seq<PendingPermission>,
    after: Seq<PendingPermission>,
    request: PendingPermission,
)
    requires
        before.len() > 0,
        queue_view(after) == queue_view(before).push(pending_view(request)),
    ensures
        after.len() == before.len() + 1,
        pending_view(after[0]) == pending_view(before[0]),
        forall|i: int| 0 <= i < before.len() ==> pending_view(#[trigger] after[i]) == pending_view(before[i]),
        pending_view(after[before.len() as int]) == pending_view(request),
{
    assert(queue_view(after).len() == after.len());
    assert(queue_view(before).len() == before.len());
    assert forall|i: int| 0 <= i < before.len() implies pending_view(#[trigger] after[i]) == pending_view(before[i]) by {
        assert(queue_view(after)[i] == pending_view(after[i]));
        assert(queue_view(before)[i] == pending_view(before[i]));
    }
    assert(queue_view(after)[before.len() as int] == pending_view(after[before.len() as int]));
}

} // verus!


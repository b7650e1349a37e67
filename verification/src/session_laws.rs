//! What the session search finds.

use vstd::prelude::*;
use crate::picker::lowercase;
use crate::session_picker::{matching, matching_upto, SessionSummary};
use crate::text::contains_seq;

verus! {

proof fn lemma_found_upto(ss: Seq<SessionSummary>, q: Seq<char>, n: int)
    requires
        0 <= n <= ss.len() <= usize::MAX,
    ensures
        forall|k: usize|
            k < ss.len() ==> (#[trigger] matching_upto(ss, q, n).contains(k) <==> (k < n && (
            q.len() == 0 || contains_seq(lowercase(ss[k as int].title@), lowercase(q))
                || contains_seq(lowercase(ss[k as int].model@), lowercase(q))))),
        forall|i: int, j: int|
            0 <= i < j < matching_upto(ss, q, n).len() ==> #[trigger] matching_upto(ss, q, n)[i]
                < #[trigger] matching_upto(ss, q, n)[j],
        forall|i: int|
            0 <= i < matching_upto(ss, q, n).len() ==> #[trigger] matching_upto(ss, q, n)[i] < n,
    decreases n,
{
    if n > 0 {
        lemma_found_upto(ss, q, n - 1);
        let rest = matching_upto(ss, q, n - 1);
        let m = matching_upto(ss, q, n);
        let hit = q.len() == 0 || contains_seq(lowercase(ss[n - 1].title@), lowercase(q))
            || contains_seq(lowercase(ss[n - 1].model@), lowercase(q));
        assert(m == (if hit {
            rest.push((n - 1) as usize)
        } else {
            rest
        }));
        if hit {
            assert forall|y: usize| m.contains(y) <==> (rest.contains(y) || y == (n - 1) as usize) by {
                if m.contains(y) {
                    let i = choose|i: int| 0 <= i < m.len() && #[trigger] m[i] == y;
                    if i < rest.len() {
                        assert(rest[i] == y);
                    }
                }
                if rest.contains(y) {
                    let i = choose|i: int| 0 <= i < rest.len() && #[trigger] rest[i] == y;
                    assert(m[i] == y);
                }
                if y == (n - 1) as usize {
                    assert(m[rest.len() as int] == y);
                }
            }
        }
        if rest.contains((n - 1) as usize) {
            let i = choose|i: int| 0 <= i < rest.len() && #[trigger] rest[i] == (n - 1) as usize;
            assert(rest[i] < n - 1);
        }
        assert forall|i: int| 0 <= i < m.len() implies #[trigger] m[i] < n by {
            if i < rest.len() {
                assert(m[i] == rest[i]);
            }
        }
        assert forall|k: usize| k < ss.len() implies (#[trigger] m.contains(k) <==> (k < n && (
        q.len() == 0 || contains_seq(lowercase(ss[k as int].title@), lowercase(q)) || contains_seq(
            lowercase(ss[k as int].model@),
            lowercase(q),
        )))) by {
            if m.contains(k) {
                let i = choose|i: int| 0 <= i < m.len() && #[trigger] m[i] == k;
                assert(m[i] < n);
            }
            if (k as int) < n - 1 {
                assert(k != ((n - 1) as usize));
                assert(rest.contains(k) <==> (k < n - 1 && (q.len() == 0 || contains_seq(
                    lowercase(ss[k as int].title@),
                    lowercase(q),
                ) || contains_seq(lowercase(ss[k as int].model@), lowercase(q)))));
            }
        }
        if hit {
            assert forall|i: int, j: int| 0 <= i < j < m.len() implies #[trigger] m[i] < #[trigger] m[j] by {
                if j < rest.len() {
                    assert(m[i] == rest[i] && m[j] == rest[j]);
                } else {
                    assert(m[i] == rest[i]);
                }
            }
        }
    }
}

/// The search finds exactly the sessions whose title or model, in lower
/// case, contains the query in lower case (all of them for an empty query),
/// each once and in the order of the sessions.
pub proof fn law_search_finds(ss: Seq<SessionSummary>, q: Seq<char>)
    requires
        ss.len() <= usize::MAX,
    ensures
        forall|k: usize|
            k < ss.len() ==> (#[trigger] matching(ss, q).contains(k) <==> (q.len() == 0
                || contains_seq(lowercase(ss[k as int].title@), lowercase(q)) || contains_seq(
                lowercase(ss[k as int].model@),
                lowercase(q),
            ))),
        forall|i: int, j: int|
            0 <= i < j < matching(ss, q).len() ==> #[trigger] matching(ss, q)[i]
                < #[trigger] matching(ss, q)[j],
        forall|i: int| 0 <= i < matching(ss, q).len() ==> #[trigger] matching(ss, q)[i] < ss.len(),
{
    lemma_found_upto(ss, q, ss.len() as int);
}

proof fn lemma_same_upto(ss: Seq<SessionSummary>, q1: Seq<char>, q2: Seq<char>, n: int)
    requires
        0 <= n <= ss.len(),
        lowercase(q1) == lowercase(q2),
        q1.len() == 0 <==> q2.len() == 0,
    ensures
        matching_upto(ss, q1, n) == matching_upto(ss, q2, n),
    decreases n,
{
    if n > 0 {
        lemma_same_upto(ss, q1, q2, n - 1);
    }
}

/// The search ignores letter case: two queries that are the same in lower
/// case (and both empty or both not) find the same sessions.
pub proof fn law_search_ignores_case(ss: Seq<SessionSummary>, q1: Seq<char>, q2: Seq<char>)
    requires
        lowercase(q1) == lowercase(q2),
        q1.len() == 0 <==> q2.len() == 0,
    ensures
        matching(ss, q1) == matching(ss, q2),
{
    lemma_same_upto(ss, q1, q2, ss.len() as int);
}

} // verus!

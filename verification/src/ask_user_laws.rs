//! Reading back a reply of the ask-user dialog gives the questions and
//! answers it was made from.

use vstd::prelude::*;

use crate::ask_user::{
    answer_pair, escaped, lemma_quote_end_bounds, lemma_skip_spaces_bounds, pairs_from, quote_end,
    reply_text, reply_upto, skip_spaces, unescaped, QuestionInfo,
};
use crate::text::replace_all;

verus! {

/// The answer a reply states: the given one, or `Unanswered`.
pub open spec fn stated(a: Option<Seq<char>>) -> Seq<char> {
    match a {
        Some(t) => t,
        None => "Unanswered"@,
    }
}

/// Texts the reply format carries unchanged: those without a backslash.
pub open spec fn plain(t: Seq<char>) -> bool {
    !t.contains('\\')
}

proof fn lemma_quote_end_shift(x: Seq<char>, z: Seq<char>, j: int)
    requires
        j >= 0,
    ensures
        quote_end(x + z, x.len() + j) == x.len() + quote_end(z, j),
    decreases z.len() - j,
{
    let s = x + z;
    if j < z.len() {
        assert(s[x.len() + j] == z[j]);
        if z[j] == '\\' {
            if j + 2 < z.len() {
                lemma_quote_end_shift(x, z, j + 2);
            }
        } else if z[j] != '"' {
            lemma_quote_end_shift(x, z, j + 1);
        }
    }
}

proof fn lemma_skip_spaces_shift(x: Seq<char>, z: Seq<char>, k: int)
    requires
        k >= 0,
    ensures
        skip_spaces(x + z, x.len() + k) == x.len() + skip_spaces(z, k),
    decreases z.len() - k,
{
    let s = x + z;
    if k < z.len() {
        assert(s[x.len() + k] == z[k]);
        if z[k] == ' ' {
            lemma_skip_spaces_shift(x, z, k + 1);
        }
    }
}

/// Reading from inside a text gives what reading its tail gives.
proof fn lemma_pairs_shift(x: Seq<char>, z: Seq<char>, i: int)
    requires
        i >= 0,
    ensures
        pairs_from(x + z, x.len() + i) == pairs_from(z, i),
    decreases z.len() - i,
{
    let s = x + z;
    let a = x.len() as int;
    if i < z.len() {
        assert(s[a + i] == z[i]);
        if z[i] != '"' {
            lemma_pairs_shift(x, z, i + 1);
        } else {
            lemma_quote_end_shift(x, z, i + 1);
            lemma_quote_end_bounds(z, i + 1);
            let j = quote_end(z, i + 1);
            if j < z.len() {
                lemma_skip_spaces_shift(x, z, j + 1);
                lemma_skip_spaces_bounds(z, j + 1);
                let k = skip_spaces(z, j + 1);
                if k < z.len() {
                    assert(s[a + k] == z[k]);
                }
                if k >= z.len() || z[k] != '=' {
                    lemma_pairs_shift(x, z, j + 1);
                } else {
                    lemma_skip_spaces_shift(x, z, k + 1);
                    lemma_skip_spaces_bounds(z, k + 1);
                    let k2 = skip_spaces(z, k + 1);
                    if k2 < z.len() {
                        assert(s[a + k2] == z[k2]);
                    }
                    if k2 >= z.len() || z[k2] != '"' {
                        lemma_pairs_shift(x, z, j + 1);
                    } else {
                        lemma_quote_end_shift(x, z, k2 + 1);
                        lemma_quote_end_bounds(z, k2 + 1);
                        let m = quote_end(z, k2 + 1);
                        if m < z.len() {
                            assert(s.subrange(a + i + 1, a + j) =~= z.subrange(i + 1, j));
                            assert(s.subrange(a + k2 + 1, a + m) =~= z.subrange(k2 + 1, m));
                            lemma_pairs_shift(x, z, m + 1);
                        }
                    }
                }
            }
        }
    }
}

proof fn lemma_escaped_front(q: Seq<char>)
    requires
        q.len() > 0,
    ensures
        escaped(q) == (if q[0] == '"' {
            seq!['\\', '"']
        } else {
            seq![q[0]]
        }) + escaped(q.skip(1)),
{
    reveal_strlit("\"");
    reveal_strlit("\\\"");
    assert(q.take(1) =~= seq![q[0]]);
    if q[0] == '"' {
        assert(q.take(1) =~= "\""@);
    } else {
        assert("\""@[0] == '"');
        assert(q.take(1)[0] != "\""@[0]);
        assert(seq![q[0]] + escaped(q.skip(1)) =~= seq![q[0]] + replace_all(
            q.skip(1),
            "\""@,
            "\\\""@,
        ));
    }
}

proof fn lemma_escaped_empty()
    ensures
        escaped(Seq::<char>::empty()) == Seq::<char>::empty(),
{
    reveal_strlit("\"");
}

/// The closing quote of an escaped plain text is the first quote that is
/// not escaped.
proof fn lemma_quote_end_escaped(q: Seq<char>, r: Seq<char>)
    requires
        plain(q),
    ensures
        quote_end(escaped(q) + seq!['"'] + r, 0) == escaped(q).len(),
    decreases q.len(),
{
    let y = escaped(q) + seq!['"'] + r;
    if q.len() == 0 {
        lemma_escaped_empty();
        assert(y[0] == '"');
    } else {
        lemma_escaped_front(q);
        let q1 = q.skip(1);
        assert(plain(q1)) by {
            if q1.contains('\\') {
                let w = choose|w: int| 0 <= w < q1.len() && q1[w] == '\\';
                assert(q[w + 1] == '\\');
            }
        }
        lemma_quote_end_escaped(q1, r);
        let tail = escaped(q1) + seq!['"'] + r;
        if q[0] == '"' {
            let x = seq!['\\', '"'];
            assert(y =~= x + tail);
            assert(y[0] == '\\');
            lemma_quote_end_shift(x, tail, 0);
        } else {
            let x = seq![q[0]];
            assert(y =~= x + tail);
            assert(q[0] != '\\') by {
                assert(q.contains(q[0]));
            }
            lemma_quote_end_shift(x, tail, 0);
        }
    }
}

/// Restoring the escaped quotes of an escaped plain text gives it back.
proof fn lemma_unescape_escaped(q: Seq<char>)
    requires
        plain(q),
    ensures
        unescaped(escaped(q)) == q,
    decreases q.len(),
{
    reveal_strlit("\\\"");
    reveal_strlit("\"");
    if q.len() == 0 {
        lemma_escaped_empty();
    } else {
        lemma_escaped_front(q);
        let q1 = q.skip(1);
        assert(plain(q1)) by {
            if q1.contains('\\') {
                let w = choose|w: int| 0 <= w < q1.len() && q1[w] == '\\';
                assert(q[w + 1] == '\\');
            }
        }
        lemma_unescape_escaped(q1);
        let e1 = escaped(q1);
        if q[0] == '"' {
            let e = seq!['\\', '"'] + e1;
            assert(e.take(2) =~= "\\\""@);
            assert(e.skip(2) =~= e1);
            assert(q =~= seq!['"'] + q1);
        } else {
            let e = seq![q[0]] + e1;
            assert(q[0] != '\\') by {
                assert(q.contains(q[0]));
            }
            if e.len() >= 2 {
                assert(e.take(2)[0] == q[0]);
                assert(e.take(2) != "\\\""@);
                assert(e.skip(1) =~= e1);
            } else {
                assert(e1.len() == 0);
                assert(q1.len() == 0) by {
                    if q1.len() > 0 {
                        lemma_escaped_front(q1);
                    }
                }
            }
            assert(q =~= seq![q[0]] + q1);
        }
    }
}

/// Reading a pair followed by anything gives the pair, then what the rest gives.
proof fn lemma_pairs_of_pair(q: QuestionInfo, a: Option<Seq<char>>, z: Seq<char>)
    requires
        plain(q.question@),
        plain(stated(a)),
    ensures
        pairs_from(answer_pair(q, a) + z, 0) == seq![(q.question@, stated(a))] + pairs_from(z, 0),
{
    reveal_strlit("\"");
    reveal_strlit("\"=\"");
    reveal_strlit("Unanswered");
    let eq = escaped(q.question@);
    let ea = escaped(stated(a));
    let p = answer_pair(q, a);
    assert(p =~= seq!['"'] + eq + seq!['"', '=', '"'] + ea + seq!['"']);
    let s = p + z;
    let r1 = seq!['=', '"'] + ea + seq!['"'] + z;
    assert(s =~= seq!['"'] + (eq + seq!['"'] + r1));
    lemma_quote_end_escaped(q.question@, r1);
    lemma_quote_end_shift(seq!['"'], eq + seq!['"'] + r1, 0);
    let j: int = 1 + eq.len() as int;
    assert(quote_end(s, 1) == j);
    assert(s[j + 1] == '=');
    assert(skip_spaces(s, j + 1) == j + 1);
    assert(s[j + 2] == '"');
    assert(skip_spaces(s, j + 2) == j + 2);
    let x2 = seq!['"'] + eq + seq!['"', '=', '"'];
    assert(s =~= x2 + (ea + seq!['"'] + z));
    lemma_quote_end_escaped(stated(a), z);
    lemma_quote_end_shift(x2, ea + seq!['"'] + z, 0);
    let m: int = x2.len() as int + ea.len() as int;
    assert(quote_end(s, j + 3) == m);
    assert(s.subrange(1, j) =~= eq);
    assert(s.subrange(j + 3, m) =~= ea);
    lemma_unescape_escaped(q.question@);
    lemma_unescape_escaped(stated(a));
    assert(s =~= p + z);
    lemma_pairs_shift(p, z, 0);
    assert(m + 1 == p.len());
}

/// The separator between pairs is skipped.
proof fn lemma_pairs_after_comma(z: Seq<char>)
    ensures
        pairs_from(", "@ + z, 0) == pairs_from(z, 0),
{
    reveal_strlit(", ");
    let s = ", "@ + z;
    assert(", "@.len() == 2);
    assert(s[0] == ',');
    assert(s[1] == ' ');
    assert(pairs_from(s, 0) == pairs_from(s, 1));
    assert(pairs_from(s, 1) == pairs_from(s, 2));
    lemma_pairs_shift(", "@, z, 0);
}

/// What reading the first `k` pairs of a reply gives.
pub open spec fn stated_pairs(qs: Seq<QuestionInfo>, answers: Seq<Option<Seq<char>>>, k: int) -> Seq<
    (Seq<char>, Seq<char>),
> {
    Seq::new(k as nat, |i: int| (qs[i].question@, stated(answers[i])))
}

proof fn lemma_reply_upto_reads_back(
    qs: Seq<QuestionInfo>,
    answers: Seq<Option<Seq<char>>>,
    k: int,
    z: Seq<char>,
)
    requires
        1 <= k <= qs.len(),
        answers.len() == qs.len(),
        forall|i: int| 0 <= i < qs.len() ==> plain(#[trigger] qs[i].question@),
        forall|i: int| 0 <= i < qs.len() ==> plain(stated(#[trigger] answers[i])),
    ensures
        pairs_from(reply_upto(qs, answers, k) + z, 0) == stated_pairs(qs, answers, k) + pairs_from(
            z,
            0,
        ),
    decreases k,
{
    if k == 1 {
        lemma_pairs_of_pair(qs[0], answers[0], z);
        assert(stated_pairs(qs, answers, 1) =~= seq![(qs[0].question@, stated(answers[0]))]);
    } else {
        let a = reply_upto(qs, answers, k - 1);
        let p = answer_pair(qs[k - 1], answers[k - 1]);
        let rest = ", "@ + p + z;
        assert(reply_upto(qs, answers, k) + z =~= a + rest);
        lemma_reply_upto_reads_back(qs, answers, k - 1, rest);
        assert(", "@ + p + z =~= ", "@ + (p + z));
        lemma_pairs_after_comma(p + z);
        lemma_pairs_of_pair(qs[k - 1], answers[k - 1], z);
        assert(stated_pairs(qs, answers, k - 1) + (seq![
            (qs[k - 1].question@, stated(answers[k - 1])),
        ] + pairs_from(z, 0)) =~= stated_pairs(qs, answers, k) + pairs_from(z, 0));
    }
}

/// Reading back a reply gives each question with its answer, in order
/// (`Unanswered` for a question left open), provided no question or answer
/// holds a backslash, which the reply format does not escape.
pub proof fn law_reply_reads_back(qs: Seq<QuestionInfo>, answers: Seq<Option<Seq<char>>>)
    requires
        answers.len() == qs.len(),
        forall|i: int| 0 <= i < qs.len() ==> plain(#[trigger] qs[i].question@),
        forall|i: int| 0 <= i < qs.len() ==> plain(stated(#[trigger] answers[i])),
    ensures
        pairs_from(reply_text(qs, answers), 0) == stated_pairs(qs, answers, qs.len() as int),
{
    if qs.len() == 0 {
        assert(stated_pairs(qs, answers, 0) =~= Seq::<(Seq<char>, Seq<char>)>::empty());
    } else {
        lemma_reply_upto_reads_back(qs, answers, qs.len() as int, Seq::empty());
        assert(reply_text(qs, answers) + Seq::<char>::empty() =~= reply_text(qs, answers));
        assert(stated_pairs(qs, answers, qs.len() as int) + Seq::<(Seq<char>, Seq<char>)>::empty()
            =~= stated_pairs(qs, answers, qs.len() as int));
    }
}

} // verus!

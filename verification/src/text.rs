//! Characters, UTF-8 byte offsets and conversions between `String` and
//! `Vec<char>`.

use vstd::prelude::*;
use vstd::std_specs::iter::IteratorSpec;
use vstd::utf8::*;

verus! {

/// Appends one character to a string (`String::push`).
/// Claims that the string afterwards holds its old characters followed by `c`.
#[verifier::external_body]
pub(crate) fn push_char(s: &mut String, c: char)
    ensures
        final(s)@ == old(s)@.push(c),
{
    s.push(c);
}

/// The characters of a string slice, in order.
pub fn chars_of(s: &str) -> (v: Vec<char>)
    ensures
        v@ == s@,
{
    let mut v: Vec<char> = Vec::new();
    for c in it: s.chars()
        invariant
            it.seq() == s@,
            v@ == it.seq().take(it.index() as int),
            it.index() <= it.seq().len(),
    {
        v.push(c);
        assert(it.seq().take(it.index() + 1) =~= it.seq().take(it.index() as int).push(c));
    }
    v
}

/// Appends the characters of `t` to `s`.
pub fn append_str(s: &mut String, t: &str)
    ensures
        final(s)@ == old(s)@ + t@,
{
    let v = chars_of(t);
    let ghost s0 = s@;
    let mut i: usize = 0;
    while i < v.len()
        invariant
            i <= v@.len(),
            v@ == t@,
            s@ == s0 + v@.take(i as int),
        decreases v@.len() - i,
    {
        push_char(s, v[i]);
        assert(s0 + v@.take(i + 1) =~= (s0 + v@.take(i as int)).push(v@[i as int]));
        i = i + 1;
    }
    assert(v@.take(v@.len() as int) =~= v@);
}

/// A string holding the given characters.
pub fn string_of(v: &[char]) -> (s: String)
    ensures
        s@ == v@,
{
    let mut s = String::new();
    let mut i: usize = 0;
    while i < v.len()
        invariant
            i <= v@.len(),
            s@ == v@.subrange(0, i as int),
        decreases v@.len() - i,
    {
        push_char(&mut s, v[i]);
        assert(v@.subrange(0, i + 1) =~= v@.subrange(0, i as int).push(v@[i as int]));
        i = i + 1;
    }
    assert(v@.subrange(0, v@.len() as int) =~= v@);
    s
}


/// Number of bytes in the UTF-8 encoding of `c`.
pub open spec fn char_len(c: char) -> nat {
    if (c as u32) < 0x80 {
        1
    } else if (c as u32) < 0x800 {
        2
    } else if (c as u32) < 0x10000 {
        3
    } else {
        4
    }
}

/// Number of bytes in the UTF-8 encoding of a character sequence.
pub open spec fn blen(s: Seq<char>) -> nat
    decreases s.len(),
{
    if s.len() == 0 {
        0
    } else {
        blen(s.drop_last()) + char_len(s.last())
    }
}

/// Byte offset of the character index `k` in `s`.
pub open spec fn byte_at(s: Seq<char>, k: int) -> nat {
    blen(s.take(k))
}

/// `p` is the byte offset of some character boundary of `s`.
pub open spec fn is_boundary(s: Seq<char>, p: int) -> bool {
    exists|k: int| 0 <= k <= s.len() && #[trigger] byte_at(s, k) == p
}

pub proof fn lemma_blen_append(a: Seq<char>, b: Seq<char>)
    ensures
        blen(a + b) == blen(a) + blen(b),
    decreases b.len(),
{
    if b.len() == 0 {
        assert(a + b =~= a);
    } else {
        lemma_blen_append(a, b.drop_last());
        assert((a + b).drop_last() =~= a + b.drop_last());
    }
}

pub proof fn lemma_blen_single(c: char)
    ensures
        blen(seq![c]) == char_len(c),
{
    assert(seq![c].drop_last() =~= Seq::<char>::empty());
    assert(blen(Seq::<char>::empty()) == 0);
    assert(seq![c].last() == c);
}

/// Byte offsets grow strictly with the character index.
pub proof fn lemma_byte_at_strict(s: Seq<char>, i: int, j: int)
    requires
        0 <= i <= j <= s.len(),
    ensures
        byte_at(s, i) <= byte_at(s, j),
        i < j ==> byte_at(s, i) < byte_at(s, j),
        byte_at(s, j) == byte_at(s, i) + blen(s.subrange(i, j)),
        i < j ==> byte_at(s, i) + char_len(s[i]) <= byte_at(s, j),
{
    assert(s.take(j) =~= s.take(i) + s.subrange(i, j));
    lemma_blen_append(s.take(i), s.subrange(i, j));
    if i < j {
        assert(s.subrange(i, j) =~= seq![s[i]] + s.subrange(i + 1, j));
        lemma_blen_append(seq![s[i]], s.subrange(i + 1, j));
        lemma_blen_single(s[i]);
    }
}

/// The byte offset of a character boundary determines the index.
pub proof fn lemma_byte_at_injective(s: Seq<char>, i: int, j: int)
    requires
        0 <= i <= s.len(),
        0 <= j <= s.len(),
        byte_at(s, i) == byte_at(s, j),
    ensures
        i == j,
{
    if i < j {
        lemma_byte_at_strict(s, i, j);
    } else if j < i {
        lemma_byte_at_strict(s, j, i);
    }
}

pub proof fn lemma_byte_at_total(s: Seq<char>)
    ensures
        byte_at(s, s.len() as int) == blen(s),
{
    assert(s.take(s.len() as int) =~= s);
}

pub proof fn lemma_encode_append(a: Seq<char>, b: Seq<char>)
    ensures
        encode_utf8(a + b) == encode_utf8(a) + encode_utf8(b),
    decreases a.len(),
{
    if a.len() == 0 {
        assert(a + b =~= b);
        assert(encode_utf8(a) =~= Seq::<u8>::empty());
        assert(encode_utf8(a) + encode_utf8(b) =~= encode_utf8(b));
    } else {
        lemma_encode_append(a.drop_first(), b);
        assert((a + b).drop_first() =~= a.drop_first() + b);
        assert((a + b)[0] == a[0]);
        assert(encode_utf8(a + b) =~= encode_utf8(a) + encode_utf8(b));
    }
}

pub proof fn lemma_encode_len(s: Seq<char>)
    ensures
        encode_utf8(s).len() == blen(s),
    decreases s.len(),
{
    if s.len() > 0 {
        let init = s.drop_last();
        lemma_encode_len(init);
        assert(s =~= init + seq![s.last()]);
        lemma_encode_append(init, seq![s.last()]);
        let c = s.last();
        char_is_scalar(c);
        assert(seq![c].drop_first() =~= Seq::<char>::empty());
        assert(encode_utf8(seq![c]) =~= encode_scalar(c as u32) + encode_utf8(Seq::<char>::empty()));
    }
}

pub proof fn lemma_encode_boundary(s: Seq<char>, k: int)
    requires
        0 <= k <= s.len(),
    ensures
        is_char_boundary(encode_utf8(s), byte_at(s, k) as int),
    decreases s.len(),
{
    broadcast use encode_utf8_valid_utf8;
    let bytes = encode_utf8(s);
    if k == 0 {
        assert(s.take(0) =~= Seq::<char>::empty());
    } else {
        encode_utf8_first_scalar(s);
        assert(pop_first_scalar(bytes) =~= encode_utf8(s.drop_first()));
        lemma_encode_boundary(s.drop_first(), k - 1);
        assert(s.take(k) =~= seq![s[0]] + s.drop_first().take(k - 1));
        lemma_blen_append(seq![s[0]], s.drop_first().take(k - 1));
        lemma_blen_single(s[0]);
        lemma_encode_len(seq![s[0]]);
        assert(seq![s[0]].drop_first() =~= Seq::<char>::empty());
        assert(encode_utf8(seq![s[0]]) =~= encode_scalar(s[0] as u32) + encode_utf8(Seq::<char>::empty()));
        lemma_encode_len(s);
        lemma_byte_at_strict(s, k, s.len() as int);
        lemma_byte_at_total(s);
    }
}

/// Number of bytes in the UTF-8 encoding of `c`.
pub fn char_len_of(c: char) -> (n: usize)
    ensures
        n == char_len(c),
{
    let u = c as u32;
    if u < 0x80 {
        1
    } else if u < 0x800 {
        2
    } else if u < 0x10000 {
        3
    } else {
        4
    }
}

/// Byte offset of the character index `k` in `v`.
pub fn byte_offset(v: &[char], k: usize) -> (b: usize)
    requires
        k <= v@.len(),
        blen(v@) <= usize::MAX,
    ensures
        b == byte_at(v@, k as int),
{
    let mut b: usize = 0;
    let mut i: usize = 0;
    while i < k
        invariant
            i <= k <= v@.len(),
            blen(v@) <= usize::MAX,
            b == byte_at(v@, i as int),
        decreases k - i,
    {
        proof {
            lemma_byte_at_strict(v@, i as int, i + 1);
            lemma_byte_at_strict(v@, i + 1, v@.len() as int);
            lemma_byte_at_total(v@);
            assert(v@.take(i + 1).drop_last() =~= v@.take(i as int));
        }
        b = b + char_len_of(v[i]);
        i = i + 1;
    }
    b
}

/// Index of the last character boundary of `v` at or before the byte offset `p`.
pub fn char_index_at_byte(v: &[char], p: usize) -> (k: usize)
    requires
        blen(v@) <= usize::MAX,
    ensures
        k <= v@.len(),
        byte_at(v@, k as int) <= p,
        k < v@.len() ==> p < byte_at(v@, k + 1),
{
    let mut b: usize = 0;
    let mut i: usize = 0;
    while i < v.len()
        invariant
            i <= v@.len(),
            blen(v@) <= usize::MAX,
            b == byte_at(v@, i as int),
            b <= p,
        decreases v@.len() - i,
    {
        proof {
            lemma_byte_at_strict(v@, i as int, i + 1);
            lemma_byte_at_strict(v@, i + 1, v@.len() as int);
            lemma_byte_at_total(v@);
            assert(v@.take(i + 1).drop_last() =~= v@.take(i as int));
        }
        let next = b + char_len_of(v[i]);
        if next > p {
            return i;
        }
        b = next;
        i = i + 1;
    }
    i
}

/// The character index whose byte offset in `s` is `p`, when `p` is a
/// character boundary of `s`.
pub open spec fn boundary_index(s: Seq<char>, p: int) -> int {
    choose|k: int| 0 <= k <= s.len() && byte_at(s, k) == p
}

/// `str::get(a..b)`: the characters between the byte offsets `a` and `b`,
/// when both are character boundaries and `a <= b`.
pub open spec fn byte_slice(s: Seq<char>, a: int, b: int) -> Option<Seq<char>> {
    if a <= b && is_boundary(s, a) && is_boundary(s, b) {
        Some(s.subrange(boundary_index(s, a), boundary_index(s, b)))
    } else {
        None
    }
}

/// The character index at the byte offset `p` of `v`, or None when `p` is
/// no character boundary.
pub fn index_of_boundary(v: &[char], p: usize) -> (r: Option<usize>)
    requires
        blen(v@) <= usize::MAX,
    ensures
        match r {
            Some(k) => k <= v@.len() && byte_at(v@, k as int) == p && is_boundary(v@, p as int)
                && boundary_index(v@, p as int) == k,
            None => !is_boundary(v@, p as int),
        },
{
    let k = char_index_at_byte(v, p);
    let b = byte_offset(v, k);
    if b == p {
        proof {
            assert(byte_at(v@, k as int) == p);
            let j = boundary_index(v@, p as int);
            lemma_byte_at_injective(v@, j, k as int);
        }
        Some(k)
    } else {
        proof {
            assert forall|j: int| 0 <= j <= v@.len() implies #[trigger] byte_at(v@, j) != p by {
                if j <= k {
                    lemma_byte_at_strict(v@, j, k as int);
                } else {
                    lemma_byte_at_strict(v@, k + 1, j);
                }
            }
        }
        None
    }
}

/// The characters of `s` between the byte offsets `a` and `b` (`str::get`).
pub fn get_byte_range(s: &str, a: usize, b: usize) -> (r: Option<String>)
    ensures
        match byte_slice(s@, a as int, b as int) {
            Some(t) => r matches Some(x) && x@ == t,
            None => r is None,
        },
{
    let v = chars_of(s);
    let _n = byte_len(s);
    if a > b {
        return None;
    }
    let ka = match index_of_boundary(&v, a) {
        Some(k) => k,
        None => return None,
    };
    let kb = match index_of_boundary(&v, b) {
        Some(k) => k,
        None => return None,
    };
    proof {
        if kb < ka {
            lemma_byte_at_strict(v@, kb as int, ka as int);
        }
    }
    Some(string_of(&sub_chars(&v, ka, kb)))
}

/// `str::len`: the number of bytes of the UTF-8 encoding of `s`.
/// Claims that this number is `blen(s@)` (and so fits in a `usize`).
#[verifier::external_body]
pub(crate) fn byte_len(s: &str) -> (n: usize)
    ensures
        n == blen(s@),
{
    s.len()
}

/// `v` with the characters in `at..end` replaced by `ins`.
pub fn splice_chars(v: &[char], at: usize, end: usize, ins: &[char]) -> (r: Vec<char>)
    requires
        at <= end <= v@.len(),
        v@.len() - (end - at) + ins@.len() <= usize::MAX,
    ensures
        r@ == v@.subrange(0, at as int) + ins@ + v@.subrange(end as int, v@.len() as int),
{
    let mut r: Vec<char> = Vec::new();
    let mut i: usize = 0;
    while i < at
        invariant
            i <= at <= end <= v@.len(),
            r@ == v@.subrange(0, i as int),
        decreases at - i,
    {
        r.push(v[i]);
        assert(v@.subrange(0, i + 1) =~= v@.subrange(0, i as int).push(v@[i as int]));
        i = i + 1;
    }
    let mut j: usize = 0;
    while j < ins.len()
        invariant
            j <= ins@.len(),
            at <= end <= v@.len(),
            v@.len() - (end - at) + ins@.len() <= usize::MAX,
            r@ == v@.subrange(0, at as int) + ins@.subrange(0, j as int),
        decreases ins@.len() - j,
    {
        r.push(ins[j]);
        assert(ins@.subrange(0, j + 1) =~= ins@.subrange(0, j as int).push(ins@[j as int]));
        j = j + 1;
    }
    let mut k: usize = end;
    while k < v.len()
        invariant
            end <= k <= v@.len(),
            at <= end,
            v@.len() - (end - at) + ins@.len() <= usize::MAX,
            r@ == v@.subrange(0, at as int) + ins@ + v@.subrange(end as int, k as int),
        decreases v@.len() - k,
    {
        r.push(v[k]);
        assert(v@.subrange(end as int, k + 1) =~= v@.subrange(end as int, k as int).push(v@[k as int]));
        k = k + 1;
    }
    assert(ins@.subrange(0, ins@.len() as int) =~= ins@);
    r
}

/// The characters `v[from..to]`.
pub fn sub_chars(v: &[char], from: usize, to: usize) -> (r: Vec<char>)
    requires
        from <= to <= v@.len(),
    ensures
        r@ == v@.subrange(from as int, to as int),
{
    let mut r: Vec<char> = Vec::new();
    let mut i: usize = from;
    while i < to
        invariant
            from <= i <= to <= v@.len(),
            r@ == v@.subrange(from as int, i as int),
        decreases to - i,
    {
        r.push(v[i]);
        assert(v@.subrange(from as int, i + 1) =~= v@.subrange(from as int, i as int).push(v@[i as int]));
        i = i + 1;
    }
    r
}

/// Characters with the Unicode `White_Space` property, as `char::is_whitespace`
/// documents it.
pub open spec fn is_ws(c: char) -> bool {
    let u = c as u32;
    ||| (0x09 <= u && u <= 0x0d)
    ||| u == 0x20
    ||| u == 0x85
    ||| u == 0xa0
    ||| u == 0x1680
    ||| (0x2000 <= u && u <= 0x200a)
    ||| u == 0x2028
    ||| u == 0x2029
    ||| u == 0x202f
    ||| u == 0x205f
    ||| u == 0x3000
}

/// Whether `c` is white space (see `is_ws`).
pub fn is_whitespace(c: char) -> (b: bool)
    ensures
        b == is_ws(c),
{
    let u = c as u32;
    (0x09 <= u && u <= 0x0d) || u == 0x20 || u == 0x85 || u == 0xa0 || u == 0x1680 || (0x2000
        <= u && u <= 0x200a) || u == 0x2028 || u == 0x2029 || u == 0x202f || u == 0x205f || u
        == 0x3000
}

/// `s` begins with `p`.
pub open spec fn starts_with(s: Seq<char>, p: Seq<char>) -> bool {
    p.len() <= s.len() && s.take(p.len() as int) == p
}

/// Whether the characters of `a` and `b` are the same.
pub fn chars_eq(a: &[char], b: &[char]) -> (r: bool)
    ensures
        r == (a@ == b@),
{
    if a.len() != b.len() {
        return false;
    }
    let mut i: usize = 0;
    while i < a.len()
        invariant
            i <= a@.len(),
            a@.len() == b@.len(),
            forall|j: int| 0 <= j < i ==> a@[j] == b@[j],
        decreases a@.len() - i,
    {
        if a[i] != b[i] {
            return false;
        }
        i = i + 1;
    }
    assert(a@ =~= b@);
    true
}

/// Whether `a` begins with `p`.
pub fn chars_start_with(a: &[char], p: &[char]) -> (r: bool)
    ensures
        r == starts_with(a@, p@),
{
    if p.len() > a.len() {
        return false;
    }
    let mut i: usize = 0;
    while i < p.len()
        invariant
            i <= p@.len() <= a@.len(),
            forall|j: int| 0 <= j < i ==> a@[j] == p@[j],
        decreases p@.len() - i,
    {
        if a[i] != p[i] {
            assert(a@.take(p@.len() as int)[i as int] != p@[i as int]);
            return false;
        }
        i = i + 1;
    }
    assert(a@.take(p@.len() as int) =~= p@);
    true
}

/// Whether two strings hold the same characters.
pub fn str_eq(a: &str, b: &str) -> (r: bool)
    ensures
        r == (a@ == b@),
{
    let x = chars_of(a);
    let y = chars_of(b);
    chars_eq(&x, &y)
}

/// Index of the first character of `v` that is not white space, or `v`'s length.
pub open spec fn ws_prefix_len(v: Seq<char>) -> int
    decreases v.len(),
{
    if v.len() == 0 {
        0
    } else if is_ws(v[0]) {
        1 + ws_prefix_len(v.drop_first())
    } else {
        0
    }
}

/// Number of trailing white-space characters of `v`.
pub open spec fn ws_suffix_len(v: Seq<char>) -> int
    decreases v.len(),
{
    if v.len() == 0 {
        0
    } else if is_ws(v.last()) {
        1 + ws_suffix_len(v.drop_last())
    } else {
        0
    }
}

/// `v` without its leading white space (`str::trim_start`).
pub open spec fn trim_start(v: Seq<char>) -> Seq<char> {
    v.skip(ws_prefix_len(v))
}

/// `v` without its trailing white space (`str::trim_end`).
pub open spec fn trim_end(v: Seq<char>) -> Seq<char> {
    v.take(v.len() - ws_suffix_len(v))
}

/// `v` without leading and trailing white space (`str::trim`).
pub open spec fn trim(v: Seq<char>) -> Seq<char> {
    trim_end(trim_start(v))
}

pub proof fn lemma_ws_prefix_bounds(v: Seq<char>)
    ensures
        0 <= ws_prefix_len(v) <= v.len(),
    decreases v.len(),
{
    if v.len() > 0 && is_ws(v[0]) {
        lemma_ws_prefix_bounds(v.drop_first());
    }
}

pub proof fn lemma_ws_suffix_bounds(v: Seq<char>)
    ensures
        0 <= ws_suffix_len(v) <= v.len(),
    decreases v.len(),
{
    if v.len() > 0 && is_ws(v.last()) {
        lemma_ws_suffix_bounds(v.drop_last());
    }
}

/// Leading white space of a concatenation: that of `p`, running on into
/// `q` when `p` is all white space.
pub proof fn lemma_ws_prefix_concat(p: Seq<char>, q: Seq<char>)
    ensures
        ws_prefix_len(p + q) == if ws_prefix_len(p) < p.len() {
            ws_prefix_len(p)
        } else {
            p.len() + ws_prefix_len(q)
        },
    decreases p.len(),
{
    lemma_ws_prefix_bounds(p);
    if p.len() == 0 {
        assert(p + q =~= q);
    } else {
        assert((p + q)[0] == p[0]);
        if is_ws(p[0]) {
            assert((p + q).drop_first() =~= p.drop_first() + q);
            lemma_ws_prefix_concat(p.drop_first(), q);
        }
    }
}

/// Trailing white space of a concatenation: that of `q`, running back into
/// `p` when `q` is all white space.
pub proof fn lemma_ws_suffix_concat(p: Seq<char>, q: Seq<char>)
    ensures
        ws_suffix_len(p + q) == if ws_suffix_len(q) < q.len() {
            ws_suffix_len(q)
        } else {
            q.len() + ws_suffix_len(p)
        },
    decreases q.len(),
{
    lemma_ws_suffix_bounds(q);
    if q.len() == 0 {
        assert(p + q =~= p);
    } else {
        assert((p + q).last() == q.last());
        if is_ws(q.last()) {
            assert((p + q).drop_last() =~= p + q.drop_last());
            lemma_ws_suffix_concat(p, q.drop_last());
        }
    }
}

/// Leading white space ends at any character that is not white space.
pub proof fn lemma_ws_prefix_stops(v: Seq<char>, i: int)
    requires
        0 <= i < v.len(),
        !is_ws(v[i]),
    ensures
        ws_prefix_len(v) <= i,
    decreases v.len(),
{
    if i > 0 && is_ws(v[0]) {
        assert(v.drop_first()[i - 1] == v[i]);
        lemma_ws_prefix_stops(v.drop_first(), i - 1);
    }
}

/// Trailing white space ends at any character that is not white space.
pub proof fn lemma_ws_suffix_stops(v: Seq<char>, i: int)
    requires
        0 <= i < v.len(),
        !is_ws(v[i]),
    ensures
        ws_suffix_len(v) <= v.len() - 1 - i,
    decreases v.len(),
{
    if i < v.len() - 1 && is_ws(v.last()) {
        assert(v.drop_last()[i] == v[i]);
        lemma_ws_suffix_stops(v.drop_last(), i);
    }
}

/// The character after the leading white space is not white space.
pub proof fn lemma_ws_prefix_end(v: Seq<char>)
    requires
        ws_prefix_len(v) < v.len(),
    ensures
        !is_ws(v[ws_prefix_len(v)]),
    decreases v.len(),
{
    lemma_ws_prefix_bounds(v);
    if is_ws(v[0]) {
        lemma_ws_prefix_bounds(v.drop_first());
        lemma_ws_prefix_end(v.drop_first());
        assert(v.drop_first()[ws_prefix_len(v.drop_first())] == v[ws_prefix_len(v)]);
    }
}

/// The character before the trailing white space is not white space.
pub proof fn lemma_ws_suffix_end(v: Seq<char>)
    requires
        ws_suffix_len(v) < v.len(),
    ensures
        !is_ws(v[v.len() - 1 - ws_suffix_len(v)]),
    decreases v.len(),
{
    lemma_ws_suffix_bounds(v);
    if is_ws(v.last()) {
        lemma_ws_suffix_bounds(v.drop_last());
        lemma_ws_suffix_end(v.drop_last());
        assert(v.drop_last()[v.len() - 2 - ws_suffix_len(v.drop_last())] == v[v.len() - 1
            - ws_suffix_len(v)]);
    }
}

/// Trimming the end twice is trimming it once.
pub proof fn lemma_trim_end_idempotent(x: Seq<char>)
    ensures
        trim_end(trim_end(x)) == trim_end(x),
{
    lemma_ws_suffix_bounds(x);
    let k = x.len() - ws_suffix_len(x);
    if k > 0 {
        lemma_ws_suffix_end(x);
        assert(x.take(k).last() == x[k - 1]);
    }
    assert(trim_end(x).take(trim_end(x).len() as int) =~= trim_end(x));
}

/// Trimming the end first and then the start gives `trim`.
pub proof fn lemma_trim_end_then_start(a: Seq<char>)
    ensures
        trim_start(trim_end(a)) == trim(a),
{
    lemma_ws_prefix_bounds(a);
    lemma_ws_suffix_bounds(a);
    let pre = ws_prefix_len(a);
    let suf = ws_suffix_len(a);
    if suf == a.len() {
        if pre < a.len() {
            lemma_ws_prefix_end(a);
            lemma_ws_suffix_stops(a, pre);
        }
        assert(trim_end(a) =~= Seq::<char>::empty());
        assert(trim_start(a) =~= Seq::<char>::empty());
        assert(trim(a) =~= Seq::<char>::empty());
    } else {
        let k = a.len() - suf;
        lemma_ws_suffix_end(a);
        lemma_ws_prefix_stops(a, k - 1);
        let e = a.take(k);
        assert(e[k - 1] == a[k - 1]);
        lemma_ws_prefix_stops(e, k - 1);
        assert(a =~= e + a.skip(k));
        lemma_ws_prefix_concat(e, a.skip(k));
        let mid = a.subrange(pre, k);
        assert(trim_start(e) =~= mid);
        let t = a.skip(pre);
        assert(t[k - 1 - pre] == a[k - 1]);
        lemma_ws_suffix_stops(t, k - 1 - pre);
        lemma_ws_suffix_bounds(t);
        assert(a =~= a.take(pre) + t);
        lemma_ws_suffix_concat(a.take(pre), t);
        assert(trim_end(t) =~= mid);
    }
}

/// Index of the first non-white-space character of `v[from..to]`, or `to`.
pub fn skip_ws(v: &[char], from: usize, to: usize) -> (r: usize)
    requires
        from <= to <= v@.len(),
    ensures
        from <= r <= to,
        r == from + ws_prefix_len(v@.subrange(from as int, to as int)),
{
    let mut i = from;
    while i < to && is_whitespace(v[i])
        invariant
            from <= i <= to <= v@.len(),
            ws_prefix_len(v@.subrange(from as int, to as int)) == (i - from) + ws_prefix_len(
                v@.subrange(i as int, to as int),
            ),
        decreases to - i,
    {
        proof {
            assert(v@.subrange(i as int, to as int).drop_first() =~= v@.subrange(i + 1, to as int));
            assert(v@.subrange(i as int, to as int)[0] == v@[i as int]);
        }
        i = i + 1;
    }
    proof {
        if i < to {
            assert(v@.subrange(i as int, to as int)[0] == v@[i as int]);
        }
    }
    i
}

/// End of `v[from..to]` without its trailing white space.
pub fn trim_end_index(v: &[char], from: usize, to: usize) -> (r: usize)
    requires
        from <= to <= v@.len(),
    ensures
        from <= r <= to,
        r == to - ws_suffix_len(v@.subrange(from as int, to as int)),
{
    let mut i = to;
    while i > from && is_whitespace(v[i - 1])
        invariant
            from <= i <= to <= v@.len(),
            ws_suffix_len(v@.subrange(from as int, to as int)) == (to - i) + ws_suffix_len(
                v@.subrange(from as int, i as int),
            ),
        decreases i,
    {
        proof {
            assert(v@.subrange(from as int, i as int).drop_last() =~= v@.subrange(
                from as int,
                i - 1,
            ));
            assert(v@.subrange(from as int, i as int).last() == v@[i - 1]);
        }
        i = i - 1;
    }
    proof {
        if i > from {
            assert(v@.subrange(from as int, i as int).last() == v@[i - 1]);
        }
    }
    i
}

/// `v` without leading and trailing white space (see `trim`).
pub fn trim_chars(v: &[char]) -> (r: Vec<char>)
    ensures
        r@ == trim(v@),
{
    let n = v.len();
    let a = skip_ws(v, 0, n);
    let b = trim_end_index(v, a, n);
    proof {
        assert(v@.subrange(0, n as int) =~= v@);
        assert(trim_start(v@) =~= v@.subrange(a as int, n as int));
        assert(trim_end(v@.subrange(a as int, n as int)) =~= v@.subrange(a as int, b as int));
    }
    sub_chars(v, a, b)
}

/// `s` with every occurrence of `p`, taken left to right without overlap,
/// replaced by `r` (`str::replace`).
pub open spec fn replace_all(s: Seq<char>, p: Seq<char>, r: Seq<char>) -> Seq<char>
    decreases s.len(),
{
    if p.len() == 0 || s.len() < p.len() {
        s
    } else if s.take(p.len() as int) == p {
        r + replace_all(s.skip(p.len() as int), p, r)
    } else {
        seq![s[0]] + replace_all(s.skip(1), p, r)
    }
}

/// `p` occurs in `s` at index `i`.
pub open spec fn occurs_at(s: Seq<char>, p: Seq<char>, i: int) -> bool {
    0 <= i && i + p.len() <= s.len() && s.subrange(i, i + p.len()) == p
}

/// `p` occurs in `s` (`str::contains`).
pub open spec fn contains_seq(s: Seq<char>, p: Seq<char>) -> bool {
    exists|i: int| #[trigger] occurs_at(s, p, i)
}

/// Whether `p` occurs in `s` at index `i`.
pub fn chars_occur_at(s: &[char], p: &[char], i: usize) -> (b: bool)
    ensures
        b == occurs_at(s@, p@, i as int),
{
    if i > s.len() || p.len() > s.len() - i {
        return false;
    }
    let mut j: usize = 0;
    let sl = s.len();
    while j < p.len()
        invariant
            j <= p@.len(),
            sl == s@.len(),
            i <= s@.len(),
            i + p@.len() <= s@.len(),
            forall|k: int| 0 <= k < j ==> s@[i + k] == p@[k],
        decreases p@.len() - j,
    {
        if s[i + j] != p[j] {
            assert(s@.subrange(i as int, i + p@.len())[j as int] != p@[j as int]);
            return false;
        }
        j = j + 1;
    }
    assert(s@.subrange(i as int, i + p@.len()) =~= p@);
    true
}

/// Whether `p` occurs in `s`.
pub fn chars_contain(s: &[char], p: &[char]) -> (b: bool)
    ensures
        b == contains_seq(s@, p@),
{
    let mut i: usize = 0;
    while i <= s.len()
        invariant
            i <= s@.len() + 1,
            forall|k: int| 0 <= k < i ==> !occurs_at(s@, p@, k),
        decreases s@.len() + 1 - i,
    {
        if chars_occur_at(s, p, i) {
            return true;
        }
        if i == s.len() {
            assert forall|k: int| !(#[trigger] occurs_at(s@, p@, k)) by {
                if k > s@.len() {
                    assert(!occurs_at(s@, p@, k));
                }
            }
            return false;
        }
        i = i + 1;
    }
    false
}

/// Whether the string `s` contains the string `p`.
pub fn str_contains(s: &str, p: &str) -> (b: bool)
    ensures
        b == contains_seq(s@, p@),
{
    let x = chars_of(s);
    let y = chars_of(p);
    chars_contain(&x, &y)
}

/// `s` with every occurrence of `p` replaced by `r` (see `replace_all`).
pub fn chars_replace(s: &[char], p: &[char], r: &[char]) -> (out: Vec<char>)
    ensures
        out@ == replace_all(s@, p@, r@),
{
    let mut out: Vec<char> = Vec::new();
    if p.len() == 0 {
        let mut k: usize = 0;
        while k < s.len()
            invariant
                k <= s@.len(),
                out@ == s@.take(k as int),
            decreases s@.len() - k,
        {
            out.push(s[k]);
            assert(s@.take(k + 1) =~= s@.take(k as int).push(s@[k as int]));
            k = k + 1;
        }
        assert(s@.take(s@.len() as int) =~= s@);
        return out;
    }
    let mut i: usize = 0;
    proof {
        assert(s@.skip(0) =~= s@);
        assert(out@ + replace_all(s@, p@, r@) =~= replace_all(s@, p@, r@));
    }
    while i < s.len()
        invariant
            i <= s@.len(),
            p@.len() > 0,
            out@ + replace_all(s@.skip(i as int), p@, r@) == replace_all(s@, p@, r@),
        decreases s@.len() - i,
    {
        let ghost rest = s@.skip(i as int);
        let ghost o0 = out@;
        if chars_occur_at(s, p, i) {
            proof {
                assert(rest.take(p@.len() as int) =~= s@.subrange(i as int, i + p@.len()));
                assert(rest.skip(p@.len() as int) =~= s@.skip(i + p@.len()));
            }
            let mut j: usize = 0;
            while j < r.len()
                invariant
                    j <= r@.len(),
                    out@ == o0 + r@.take(j as int),
                decreases r@.len() - j,
            {
                out.push(r[j]);
                assert(o0 + r@.take(j + 1) =~= (o0 + r@.take(j as int)).push(r@[j as int]));
                j = j + 1;
            }
            proof {
                assert(r@.take(r@.len() as int) =~= r@);
                assert(o0 + (r@ + replace_all(s@.skip(i + p@.len()), p@, r@)) =~= (o0 + r@)
                    + replace_all(s@.skip(i + p@.len()), p@, r@));
            }
            i = i + p.len();
        } else {
            proof {
                if rest.len() >= p@.len() {
                    assert(rest.take(p@.len() as int) =~= s@.subrange(i as int, i + p@.len()));
                }
                assert(rest.skip(1) =~= s@.skip(i + 1));
                assert(rest[0] == s@[i as int]);
                if rest.len() < p@.len() {
                    assert(replace_all(rest, p@, r@) == rest);
                    assert(rest =~= seq![rest[0]] + rest.skip(1));
                    lemma_replace_short(rest.skip(1), p@, r@);
                }
            }
            out.push(s[i]);
            proof {
                assert(o0 + (seq![s@[i as int]] + replace_all(s@.skip(i + 1), p@, r@)) =~= o0.push(
                    s@[i as int],
                ) + replace_all(s@.skip(i + 1), p@, r@));
            }
            i = i + 1;
        }
    }
    proof {
        assert(s@.skip(i as int).len() == 0);
        assert(out@ + Seq::<char>::empty() =~= out@);
    }
    out
}

proof fn lemma_replace_short(s: Seq<char>, p: Seq<char>, r: Seq<char>)
    requires
        s.len() < p.len(),
    ensures
        replace_all(s, p, r) == s,
{
}

/// The decimal digits of `n`.
pub open spec fn decimal(n: nat) -> Seq<char>
    decreases n,
{
    if n < 10 {
        seq![digit_char(n)]
    } else {
        decimal(n / 10).push(digit_char(n % 10))
    }
}

pub open spec fn digit_char(d: nat) -> char {
    if d == 0 {
        '0'
    } else if d == 1 {
        '1'
    } else if d == 2 {
        '2'
    } else if d == 3 {
        '3'
    } else if d == 4 {
        '4'
    } else if d == 5 {
        '5'
    } else if d == 6 {
        '6'
    } else if d == 7 {
        '7'
    } else if d == 8 {
        '8'
    } else {
        '9'
    }
}

fn digit_of(d: usize) -> (c: char)
    requires
        d < 10,
    ensures
        c == digit_char(d as nat),
{
    if d == 0 {
        '0'
    } else if d == 1 {
        '1'
    } else if d == 2 {
        '2'
    } else if d == 3 {
        '3'
    } else if d == 4 {
        '4'
    } else if d == 5 {
        '5'
    } else if d == 6 {
        '6'
    } else if d == 7 {
        '7'
    } else if d == 8 {
        '8'
    } else {
        '9'
    }
}

/// The decimal digits of `n`, as `n.to_string()` writes them.
pub fn decimal_chars(n: usize) -> (r: Vec<char>)
    ensures
        r@ == decimal(n as nat),
    decreases n,
{
    if n < 10 {
        let mut r: Vec<char> = Vec::new();
        r.push(digit_of(n));
        assert(r@ =~= seq![digit_char(n as nat)]);
        r
    } else {
        let mut r = decimal_chars(n / 10);
        r.push(digit_of(n % 10));
        r
    }
}

/// The decimal digits of a `u64`, as `n.to_string()` writes them.
pub fn decimal_u64_chars(n: u64) -> (r: Vec<char>)
    ensures
        r@ == decimal(n as nat),
    decreases n,
{
    if n < 10 {
        let mut r: Vec<char> = Vec::new();
        r.push(digit_of(n as usize));
        assert(r@ =~= seq![digit_char(n as nat)]);
        r
    } else {
        let mut r = decimal_u64_chars(n / 10);
        r.push(digit_of((n % 10) as usize));
        r
    }
}

/// Appends the characters `t` to `out`.
pub fn extend_chars(out: &mut Vec<char>, t: &[char])
    ensures
        final(out)@ == old(out)@ + t@,
{
    let ghost o0 = out@;
    let mut i: usize = 0;
    while i < t.len()
        invariant
            i <= t@.len(),
            out@ == o0 + t@.take(i as int),
        decreases t@.len() - i,
    {
        out.push(t[i]);
        assert(o0 + t@.take(i + 1) =~= (o0 + t@.take(i as int)).push(t@[i as int]));
        i = i + 1;
    }
    assert(t@.take(t@.len() as int) =~= t@);
}

} // verus!

//! A one-line text field with a cursor, as the setup and add-model forms
//! use it, and the number parser those forms validate with.

use vstd::prelude::*;

use crate::keys::KeyCode;
use crate::text::{
    blen, byte_at, byte_offset, lemma_blen_append, lemma_blen_single, char_len, splice_chars,
    string_of,
};

verus! {

/// The contents of a line field: its characters and the cursor, a character
/// index between `0` and `text.len()`.
pub struct LineView {
    pub text: Seq<char>,
    pub cursor: int,
}

impl LineView {
    pub open spec fn wf(self) -> bool {
        &&& 0 <= self.cursor <= self.text.len()
        &&& blen(self.text) <= usize::MAX
    }

    /// The field holding `t` with the cursor after its last character.
    pub open spec fn at_end(t: Seq<char>) -> LineView {
        LineView { text: t, cursor: t.len() as int }
    }

    /// The empty field.
    pub open spec fn empty() -> LineView {
        LineView { text: Seq::empty(), cursor: 0 }
    }

    /// `t` inserted at the cursor, the cursor put after it.
    pub open spec fn inserted(self, t: Seq<char>) -> LineView {
        LineView {
            text: self.text.subrange(0, self.cursor) + t + self.text.subrange(
                self.cursor,
                self.text.len() as int,
            ),
            cursor: self.cursor + t.len(),
        }
    }

    /// The effect of an editing key: the arrows move by one character,
    /// Home and End jump to the ends, Backspace and Delete remove the
    /// character before or after the cursor, a character key inserts it;
    /// every other key leaves the field as it is.
    pub open spec fn edited(self, code: KeyCode) -> LineView {
        let n = self.text.len() as int;
        match code {
            KeyCode::Left => if self.cursor > 0 {
                LineView { cursor: self.cursor - 1, ..self }
            } else {
                self
            },
            KeyCode::Right => if self.cursor < n {
                LineView { cursor: self.cursor + 1, ..self }
            } else {
                self
            },
            KeyCode::Home => LineView { cursor: 0, ..self },
            KeyCode::End => LineView { cursor: n, ..self },
            KeyCode::Backspace => if self.cursor > 0 {
                LineView { text: self.text.remove(self.cursor - 1), cursor: self.cursor - 1 }
            } else {
                self
            },
            KeyCode::Delete => if self.cursor < n {
                LineView { text: self.text.remove(self.cursor), ..self }
            } else {
                self
            },
            KeyCode::Char(c) => self.inserted(seq![c]),
            _ => self,
        }
    }
}

/// Line breaks, which a pasted text loses on its way into a line field.
pub open spec fn is_line_break(c: char) -> bool {
    c == '\n' || c == '\r'
}

/// `s` without its line breaks.
pub open spec fn single_line(s: Seq<char>) -> Seq<char>
    decreases s.len(),
{
    if s.len() == 0 {
        Seq::empty()
    } else if is_line_break(s.last()) {
        single_line(s.drop_last())
    } else {
        single_line(s.drop_last()).push(s.last())
    }
}

pub proof fn lemma_single_line_len(s: Seq<char>)
    ensures
        single_line(s).len() <= s.len(),
    decreases s.len(),
{
    if s.len() > 0 {
        lemma_single_line_len(s.drop_last());
    }
}

/// `s` without its line breaks, as characters.
pub fn strip_line_breaks(s: &str) -> (r: Vec<char>)
    ensures
        r@ == single_line(s@),
{
    let v = crate::text::chars_of(s);
    let mut r: Vec<char> = Vec::new();
    let mut i: usize = 0;
    while i < v.len()
        invariant
            i <= v@.len(),
            v@ == s@,
            r@ == single_line(v@.take(i as int)),
        decreases v@.len() - i,
    {
        proof {
            assert(v@.take(i + 1).drop_last() =~= v@.take(i as int));
        }
        let c = v[i];
        if c != '\n' && c != '\r' {
            r.push(c);
        }
        i = i + 1;
    }
    assert(v@.take(v@.len() as int) =~= v@);
    r
}

/// A one-line text field with a cursor.
pub struct LineEdit {
    chars: Vec<char>,
    cursor: usize,
}

impl View for LineEdit {
    type V = LineView;

    closed spec fn view(&self) -> LineView {
        LineView { text: self.chars@, cursor: self.cursor as int }
    }
}

impl LineEdit {
    pub open spec fn wf(&self) -> bool {
        self@.wf()
    }

    /// An empty field.
    pub fn new() -> (r: LineEdit)
        ensures
            r.wf(),
            r@ == LineView::empty(),
    {
        LineEdit { chars: Vec::new(), cursor: 0 }
    }

    /// A field holding `s`, with the cursor at its end.
    pub fn from_str(s: &str) -> (r: LineEdit)
        ensures
            r.wf(),
            r@ == LineView::at_end(s@),
    {
        let chars = crate::text::chars_of(s);
        let _bytes = crate::text::byte_len(s);
        let n = chars.len();
        LineEdit { chars, cursor: n }
    }

    /// Empties the field.
    pub fn clear(&mut self)
        ensures
            final(self).wf(),
            final(self)@ == LineView::empty(),
    {
        self.chars = Vec::new();
        self.cursor = 0;
    }

    /// Replaces the contents by `s` and puts the cursor at its end.
    pub fn set(&mut self, s: &str)
        ensures
            final(self).wf(),
            final(self)@ == LineView::at_end(s@),
    {
        *self = LineEdit::from_str(s);
    }

    /// The text of the field.
    pub fn text(&self) -> (s: String)
        ensures
            s@ == self@.text,
    {
        string_of(&self.chars)
    }

    /// Whether the field is empty.
    pub fn is_empty(&self) -> (b: bool)
        ensures
            b == (self@.text.len() == 0),
    {
        self.chars.len() == 0
    }

    /// The cursor as a byte offset into the text.
    pub fn byte_cursor(&self) -> (b: usize)
        requires
            self.wf(),
        ensures
            b == byte_at(self@.text, self@.cursor),
    {
        byte_offset(&self.chars, self.cursor)
    }

    /// Inserts `t` at the cursor and puts the cursor after it.
    pub fn insert_chars(&mut self, t: &[char])
        requires
            old(self).wf(),
            blen(old(self)@.text) + blen(t@) <= usize::MAX,
        ensures
            final(self).wf(),
            final(self)@ == old(self)@.inserted(t@),
    {
        let ghost v0 = self@.text;
        proof {
            lemma_len_le_blen(v0);
            lemma_len_le_blen(t@);
            let a = v0.subrange(0, self.cursor as int);
            let b = v0.subrange(self.cursor as int, v0.len() as int);
            assert(v0 =~= a + b);
            lemma_blen_append(a, b);
            lemma_blen_append(a, t@);
            lemma_blen_append(a + t@, b);
        }
        let r = splice_chars(&self.chars, self.cursor, self.cursor, t);
        self.chars = r;
        self.cursor = self.cursor + t.len();
    }

    /// Applies an editing key (see `LineView::edited`).
    pub fn edit(&mut self, code: KeyCode)
        requires
            old(self).wf(),
            code matches KeyCode::Char(c) ==> blen(old(self)@.text) + char_len(c) <= usize::MAX,
        ensures
            final(self).wf(),
            final(self)@ == old(self)@.edited(code),
    {
        let n = self.chars.len();
        match code {
            KeyCode::Left => {
                if self.cursor > 0 {
                    self.cursor = self.cursor - 1;
                }
            },
            KeyCode::Right => {
                if self.cursor < n {
                    self.cursor = self.cursor + 1;
                }
            },
            KeyCode::Home => {
                self.cursor = 0;
            },
            KeyCode::End => {
                self.cursor = n;
            },
            KeyCode::Backspace => {
                if self.cursor > 0 {
                    let ghost v0 = self@.text;
                    self.chars.remove(self.cursor - 1);
                    self.cursor = self.cursor - 1;
                    proof {
                        lemma_blen_remove(v0, self.cursor as int);
                    }
                }
            },
            KeyCode::Delete => {
                if self.cursor < n {
                    let ghost v0 = self@.text;
                    self.chars.remove(self.cursor);
                    proof {
                        lemma_blen_remove(v0, self.cursor as int);
                    }
                }
            },
            KeyCode::Char(c) => {
                let one = vec![c];
                proof {
                    lemma_blen_single(c);
                    assert(one@ =~= seq![c]);
                }
                self.insert_chars(&one);
            },
            _ => {},
        }
    }
}

/// A string has at least as many bytes as characters.
pub proof fn lemma_len_le_blen(s: Seq<char>)
    ensures
        s.len() <= blen(s),
    decreases s.len(),
{
    if s.len() > 0 {
        lemma_len_le_blen(s.drop_last());
        assert(s =~= s.drop_last() + seq![s.last()]);
        lemma_blen_append(s.drop_last(), seq![s.last()]);
        lemma_blen_single(s.last());
    }
}

/// Removing a character does not lengthen the UTF-8 encoding.
pub proof fn lemma_blen_remove(s: Seq<char>, i: int)
    requires
        0 <= i < s.len(),
    ensures
        blen(s.remove(i)) <= blen(s),
{
    let a = s.subrange(0, i);
    let b = s.subrange(i + 1, s.len() as int);
    assert(s =~= a + seq![s[i]] + b);
    assert(s.remove(i) =~= a + b);
    lemma_blen_append(a, b);
    lemma_blen_append(a, seq![s[i]]);
    lemma_blen_append(a + seq![s[i]], b);
}

// ===== Parsing an unsigned number =====

/// An ASCII decimal digit.
pub open spec fn is_digit(c: char) -> bool {
    '0' <= c && c <= '9'
}

/// The value of a string of decimal digits.
pub open spec fn digits_value(s: Seq<char>) -> nat
    decreases s.len(),
{
    if s.len() == 0 {
        0
    } else {
        digits_value(s.drop_last()) * 10 + ((s.last() as u32) - ('0' as u32)) as nat
    }
}

/// All characters of `s` are decimal digits.
pub open spec fn all_digits(s: Seq<char>) -> bool {
    forall|i: int| 0 <= i < s.len() ==> is_digit(#[trigger] s[i])
}

/// The digits of `s` after an optional leading `+`.
pub open spec fn unsigned_digits(s: Seq<char>) -> Seq<char> {
    if s.len() > 0 && s[0] == '+' {
        s.drop_first()
    } else {
        s
    }
}

/// What `str::parse::<u32>` gives: an optional `+` followed by at least one
/// decimal digit, whose value fits in a `u32`; `None` for anything else.
pub open spec fn parsed_u32(s: Seq<char>) -> Option<u32> {
    let d = unsigned_digits(s);
    if d.len() > 0 && all_digits(d) && digits_value(d) <= u32::MAX {
        Some(digits_value(d) as u32)
    } else {
        None
    }
}

proof fn lemma_digits_value_grows(s: Seq<char>, k: int)
    requires
        0 <= k <= s.len(),
        all_digits(s),
    ensures
        digits_value(s.take(k)) <= digits_value(s),
    decreases s.len() - k,
{
    if k < s.len() {
        lemma_digits_value_grows(s, k + 1);
        assert(s.take(k + 1).drop_last() =~= s.take(k));
        assert(is_digit(s[k]));
    } else {
        assert(s.take(k) =~= s);
    }
}

/// Parses `s` as `str::parse::<u32>` does.
pub fn parse_u32(s: &[char]) -> (r: Option<u32>)
    ensures
        r == parsed_u32(s@),
{
    let n = s.len();
    let start: usize = if n > 0 && s[0] == '+' {
        1
    } else {
        0
    };
    let ghost d = unsigned_digits(s@);
    proof {
        assert(d =~= s@.subrange(start as int, n as int));
    }
    if start >= n {
        return None;
    }
    let mut acc: u64 = 0;
    let mut i: usize = start;
    while i < n
        invariant
            start <= i <= n == s@.len(),
            d == s@.subrange(start as int, n as int),
            d == unsigned_digits(s@),
            all_digits(d.take(i - start)),
            acc == digits_value(d.take(i - start)),
            acc <= u32::MAX,
        decreases n - i,
    {
        let c = s[i];
        proof {
            assert(d.take(i - start + 1).drop_last() =~= d.take(i - start));
            assert(d[i - start] == c);
        }
        if !('0' <= c && c <= '9') {
            proof {
                assert(!is_digit(d[i - start]));
            }
            return None;
        }
        let digit = (c as u32 - '0' as u32) as u64;
        let next = acc * 10 + digit;
        if next > 0xffff_ffff {
            proof {
                if all_digits(d) {
                    lemma_digits_value_grows(d, i - start + 1);
                }
            }
            return None;
        }
        acc = next;
        i = i + 1;
        proof {
            assert forall|j: int| 0 <= j < d.take(i - start).len() implies is_digit(
                #[trigger] d.take(i - start)[j],
            ) by {
                if j < i - 1 - start {
                    assert(d.take(i - start)[j] == d.take(i - 1 - start)[j]);
                }
            }
        }
    }
    proof {
        assert(d.take(n - start) =~= d);
    }
    Some(acc as u32)
}

} // verus!

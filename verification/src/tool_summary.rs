//! One-line summaries of tool results for the history (line counts, match
//! counts, a short preview), and the lines of a text as `str::lines` gives
//! them.

use vstd::prelude::*;

use crate::text::{
    chars_contain, chars_of, chars_start_with, contains_seq, decimal, decimal_chars,
    extend_chars, starts_with, string_of, sub_chars, trim, trim_chars,
};
use crate::tool::{extract_xml_tag, truncate_str, truncated, xml_tag};

verus! {

// ===== Lines =====

/// Index of the first `\n` at or after `i`, or the end.
pub open spec fn next_newline(s: Seq<char>, i: int) -> int
    decreases s.len() - i,
{
    if i >= s.len() {
        s.len() as int
    } else if s[i] == '\n' {
        i
    } else {
        next_newline(s, i + 1)
    }
}

/// A line without the `\r` of a `\r\n` ending.
pub open spec fn strip_cr(p: Seq<char>) -> Seq<char> {
    if p.len() > 0 && p.last() == '\r' {
        p.drop_last()
    } else {
        p
    }
}

/// The lines of `s` from index `i`: split at `\n`, a `\r` before the `\n`
/// dropped, no empty line after a final `\n`.
pub open spec fn lines_from(s: Seq<char>, i: int) -> Seq<Seq<char>>
    decreases s.len() - i,
{
    if i < 0 || i >= s.len() {
        Seq::empty()
    } else {
        proof {
            lemma_next_newline_bounds(s, i);
        }
        let k = next_newline(s, i);
        if k < s.len() {
            seq![strip_cr(s.subrange(i, k))] + lines_from(s, k + 1)
        } else {
            seq![s.subrange(i, k)]
        }
    }
}

/// `str::lines`.
pub open spec fn lines(s: Seq<char>) -> Seq<Seq<char>> {
    lines_from(s, 0)
}

pub proof fn lemma_next_newline_bounds(s: Seq<char>, i: int)
    requires
        0 <= i,
    ensures
        i <= next_newline(s, i) || i > s.len(),
        next_newline(s, i) <= s.len() || i > s.len(),
        next_newline(s, i) < s.len() ==> s[next_newline(s, i)] == '\n',
        forall|j: int| i <= j < next_newline(s, i) ==> s[j] != '\n',
    decreases s.len() - i,
{
    if i < s.len() && s[i] != '\n' {
        lemma_next_newline_bounds(s, i + 1);
    }
}

fn find_newline(v: &[char], i: usize) -> (k: usize)
    requires
        i <= v@.len(),
    ensures
        k == next_newline(v@, i as int),
        i <= k <= v@.len(),
{
    let mut k = i;
    while k < v.len() && v[k] != '\n'
        invariant
            i <= k <= v@.len(),
            next_newline(v@, i as int) == next_newline(v@, k as int),
        decreases v@.len() - k,
    {
        k = k + 1;
    }
    k
}

/// The lines of `v` (see `lines`).
pub fn split_lines(v: &[char]) -> (r: Vec<Vec<char>>)
    ensures
        r@.map_values(|l: Vec<char>| l@) == lines(v@),
{
    let ghost s = v@;
    let n = v.len();
    let mut out: Vec<Vec<char>> = Vec::new();
    let mut i: usize = 0;
    while i < n
        invariant
            n == s.len(),
            s == v@,
            i <= n,
            out@.map_values(|l: Vec<char>| l@) + lines_from(s, i as int) == lines(s),
        decreases n - i,
    {
        let ghost before = out@.map_values(|l: Vec<char>| l@);
        let k = find_newline(v, i);
        let mut end = k;
        if k < n && k > i && v[k - 1] == '\r' {
            end = k - 1;
        }
        let line = sub_chars(v, i, end);
        proof {
            if k < n {
                assert(line@ == strip_cr(s.subrange(i as int, k as int))) by {
                    if k > i && v@[k - 1] == '\r' {
                        assert(s.subrange(i as int, k as int).drop_last() =~= s.subrange(
                            i as int,
                            k - 1,
                        ));
                    }
                }
            }
        }
        let ghost lv = line@;
        out.push(line);
        proof {
            assert(out@.map_values(|l: Vec<char>| l@) =~= before.push(lv));
        }
        if k < n {
            proof {
                assert(before.push(lv) + lines_from(s, k + 1) =~= before + (seq![lv] + lines_from(
                    s,
                    k + 1,
                )));
            }
            i = k + 1;
        } else {
            proof {
                assert(before.push(lv) + lines_from(s, n as int) =~= before + seq![lv]);
            }
            i = n;
        }
    }
    proof {
        assert(out@.map_values(|l: Vec<char>| l@) + lines_from(s, n as int) =~= out@.map_values(
            |l: Vec<char>| l@,
        ));
    }
    out
}

// ===== Counting =====

/// Lines holding something besides white space.
pub open spec fn nonblank_count(ls: Seq<Seq<char>>) -> nat
    decreases ls.len(),
{
    if ls.len() == 0 {
        0
    } else {
        nonblank_count(ls.drop_last()) + if trim(ls.last()).len() > 0 {
            1nat
        } else {
            0nat
        }
    }
}

/// Lines that name a file in grep output: ending in `:`, not indented.
pub open spec fn file_line(l: Seq<char>) -> bool {
    l.len() > 0 && l.last() == ':' && !(l.len() > 0 && l[0] == ' ')
}

pub open spec fn file_line_count(ls: Seq<Seq<char>>) -> nat
    decreases ls.len(),
{
    if ls.len() == 0 {
        0
    } else {
        file_line_count(ls.drop_last()) + if file_line(ls.last()) {
            1nat
        } else {
            0nat
        }
    }
}

/// Lines that report a match in grep output.
pub open spec fn match_line_count(ls: Seq<Seq<char>>) -> nat
    decreases ls.len(),
{
    if ls.len() == 0 {
        0
    } else {
        match_line_count(ls.drop_last()) + if starts_with(ls.last(), "  Line "@) {
            1nat
        } else {
            0nat
        }
    }
}

/// How often `c` occurs in `s`.
pub open spec fn char_count(s: Seq<char>, c: char) -> nat
    decreases s.len(),
{
    if s.len() == 0 {
        0
    } else {
        char_count(s.drop_last(), c) + if s.last() == c {
            1nat
        } else {
            0nat
        }
    }
}

proof fn lemma_count_le(s: Seq<char>, c: char)
    ensures
        char_count(s, c) <= s.len(),
    decreases s.len(),
{
    if s.len() > 0 {
        lemma_count_le(s.drop_last(), c);
    }
}

fn count_char(v: &[char], c: char) -> (n: usize)
    ensures
        n == char_count(v@, c),
{
    let mut n: usize = 0;
    let mut i: usize = 0;
    while i < v.len()
        invariant
            i <= v@.len(),
            n == char_count(v@.take(i as int), c),
        decreases v@.len() - i,
    {
        proof {
            assert(v@.take(i + 1).drop_last() =~= v@.take(i as int));
            lemma_count_le(v@.take(i as int), c);
        }
        if v[i] == c {
            n = n + 1;
        }
        i = i + 1;
    }
    proof {
        assert(v@.take(v@.len() as int) =~= v@);
    }
    n
}

fn count_nonblank(ls: &[Vec<char>]) -> (n: usize)
    ensures
        n == nonblank_count(ls@.map_values(|l: Vec<char>| l@)),
{
    let ghost lv = ls@.map_values(|l: Vec<char>| l@);
    let mut n: usize = 0;
    let mut i: usize = 0;
    while i < ls.len()
        invariant
            i <= ls@.len(),
            lv == ls@.map_values(|l: Vec<char>| l@),
            n == nonblank_count(lv.take(i as int)),
            n <= i,
        decreases ls@.len() - i,
    {
        proof {
            assert(lv.take(i + 1).drop_last() =~= lv.take(i as int));
            assert(lv.take(i + 1).last() == ls@[i as int]@);
        }
        if trim_chars(&ls[i]).len() > 0 {
            n = n + 1;
        }
        i = i + 1;
    }
    proof {
        assert(lv.take(ls@.len() as int) =~= lv);
    }
    n
}

fn count_grep_lines(ls: &[Vec<char>]) -> (r: (usize, usize))
    ensures
        r.0 == file_line_count(ls@.map_values(|l: Vec<char>| l@)),
        r.1 == match_line_count(ls@.map_values(|l: Vec<char>| l@)),
{
    let ghost lv = ls@.map_values(|l: Vec<char>| l@);
    let marker = chars_of("  Line ");
    let mut files: usize = 0;
    let mut matches: usize = 0;
    let mut i: usize = 0;
    while i < ls.len()
        invariant
            i <= ls@.len(),
            lv == ls@.map_values(|l: Vec<char>| l@),
            marker@ == "  Line "@,
            files == file_line_count(lv.take(i as int)),
            matches == match_line_count(lv.take(i as int)),
            files <= i,
            matches <= i,
        decreases ls@.len() - i,
    {
        proof {
            assert(lv.take(i + 1).drop_last() =~= lv.take(i as int));
            assert(lv.take(i + 1).last() == ls@[i as int]@);
        }
        let l = &ls[i];
        let ends_colon = l.len() > 0 && l[l.len() - 1] == ':';
        let indented = l.len() > 0 && l[0] == ' ';
        if ends_colon && !indented {
            files = files + 1;
        }
        if chars_start_with(l, &marker) {
            matches = matches + 1;
        }
        i = i + 1;
    }
    proof {
        assert(lv.take(ls@.len() as int) =~= lv);
    }
    (files, matches)
}

// ===== Previews =====

/// The first `k` lines joined by `\n`.
pub open spec fn joined(ls: Seq<Seq<char>>, k: int) -> Seq<char>
    decreases k,
{
    if k <= 0 || ls.len() == 0 {
        Seq::empty()
    } else if k == 1 {
        ls[0]
    } else {
        joined(ls, k - 1) + seq!['\n'] + ls[k - 1]
    }
}

/// A preview of a trimmed text: the whole text (cut to `max_chars`) when it
/// has at most `max_lines` lines, else its first `max_lines` lines and a
/// count of the others.
pub open spec fn preview(t: Seq<char>, max_lines: nat, max_chars: nat) -> Seq<char> {
    let ls = lines(t);
    if ls.len() <= max_lines {
        truncated(t, max_chars as int)
    } else {
        joined(ls, max_lines as int) + "\n... +"@ + decimal((ls.len() - max_lines) as nat)
            + " lines"@
    }
}

fn preview_of(t: &[char], max_lines: usize, max_chars: usize) -> (r: String)
    requires
        1 <= max_lines,
    ensures
        r@ == preview(t@, max_lines as nat, max_chars as nat),
{
    let ls = split_lines(t);
    let ghost lv = ls@.map_values(|l: Vec<char>| l@);
    if ls.len() <= max_lines {
        return truncate_str(string_of(t).as_str(), max_chars);
    }
    let mut out: Vec<char> = Vec::new();
    let mut i: usize = 0;
    while i < max_lines
        invariant
            i <= max_lines < ls@.len(),
            lv == ls@.map_values(|l: Vec<char>| l@),
            out@ == joined(lv, i as int),
        decreases max_lines - i,
    {
        if i > 0 {
            out.push('\n');
        }
        extend_chars(&mut out, &ls[i]);
        proof {
            assert(lv[i as int] == ls@[i as int]@);
            if i == 0 {
                assert(out@ =~= lv[0]);
            }
        }
        i = i + 1;
    }
    extend_chars(&mut out, &chars_of("\n... +"));
    extend_chars(&mut out, &decimal_chars(ls.len() - max_lines));
    extend_chars(&mut out, &chars_of(" lines"));
    string_of(&out)
}

// ===== The summary =====

/// The summary of a result of the tool `name`:
/// read: the lines of a file's content or the non-blank entries of a
/// directory; edit/write: `done` on success, else the trimmed result (40
/// characters); bash: a three-line preview or `no output`; web_fetch: the
/// character count; grep: files and matches, or `no matches`; glob: the
/// non-blank lines as files, or `no matches`; todo_write: done items over
/// all; ask_user: cancelled or answered; task: a five-line preview of the
/// task result; anything else: the trimmed result (60 characters). An empty
/// result gives nothing.
pub open spec fn result_summary(name: Seq<char>, result: Seq<char>) -> Seq<char> {
    if result.len() == 0 {
        Seq::empty()
    } else if name == "read"@ {
        let kind = xml_tag(result, "type"@);
        let lc = match xml_tag(result, "content"@) {
            Some(c) => lines(c).len(),
            None => 0,
        };
        let ec = match xml_tag(result, "entries"@) {
            Some(e) => nonblank_count(lines(e)),
            None => 0,
        };
        if kind == Some("file"@) && lc > 0 {
            decimal(lc) + " lines"@
        } else if kind == Some("directory"@) && ec > 0 {
            decimal(ec) + " entries"@
        } else {
            Seq::empty()
        }
    } else if name == "edit"@ || name == "write"@ {
        if contains_seq(result, "成功"@) {
            "done"@
        } else {
            truncated(trim(result), 40)
        }
    } else if name == "bash"@ {
        let t = trim(result);
        if t.len() == 0 {
            "no output"@
        } else {
            preview(t, 3, 120)
        }
    } else if name == "web_fetch"@ {
        decimal(result.len()) + " chars"@
    } else if name == "grep"@ {
        if starts_with(result, "未找到"@) {
            "no matches"@
        } else {
            let ls = lines(result);
            let fc = file_line_count(ls);
            if fc > 0 {
                decimal(fc) + " files, "@ + decimal(match_line_count(ls)) + " matches"@
            } else {
                Seq::empty()
            }
        }
    } else if name == "glob"@ {
        if starts_with(result, "未找到"@) {
            "no matches"@
        } else {
            decimal(nonblank_count(lines(result))) + " files"@
        }
    } else if name == "todo_write"@ {
        let done = char_count(result, '✓');
        let total = char_count(result, '○') + done + char_count(result, '→') + char_count(
            result,
            '✗',
        );
        decimal(done) + "/"@ + decimal(total) + " done"@
    } else if name == "ask_user"@ {
        if contains_seq(result, "[User Cancelled]"@) {
            "cancelled"@
        } else {
            "answered"@
        }
    } else if name == "task"@ {
        let inner = match xml_tag(result, "task_result"@) {
            Some(x) => x,
            None => result,
        };
        let t = trim(inner);
        if t.len() == 0 {
            "no output"@
        } else {
            preview(t, 5, 200)
        }
    } else {
        truncated(trim(result), 60)
    }
}

/// Edits and writes are summarised alike: a result that reports success
/// (it contains `成功`) reads `done`, any other non-empty result is shown
/// trimmed and cut to 40 characters.
pub proof fn law_edit_write_summary(result: Seq<char>)
    ensures
        result_summary("edit"@, result) == result_summary("write"@, result),
        contains_seq(result, "成功"@) ==> result_summary("edit"@, result) == "done"@
            && result_summary("write"@, result) == "done"@,
        result.len() > 0 && !contains_seq(result, "成功"@) ==> result_summary("write"@, result)
            == truncated(trim(result), 40),
{
    reveal_strlit("成功");
    reveal_strlit("read");
    reveal_strlit("edit");
    reveal_strlit("write");
    assert("write"@[0] != "read"@[0]);
    assert("edit"@[0] != "read"@[0]);
    assert("write"@[0] != "edit"@[0]);
    if contains_seq(result, "成功"@) {
        assert(result.len() > 0);
    }
}

proof fn lemma_lines_len(s: Seq<char>, i: int)
    requires
        0 <= i,
    ensures
        lines_from(s, i).len() <= s.len() + 1,
        i <= s.len() ==> lines_from(s, i).len() <= s.len() - i + 1,
    decreases s.len() - i,
{
    if i < s.len() {
        lemma_next_newline_bounds(s, i);
        let k = next_newline(s, i);
        if k < s.len() {
            lemma_lines_len(s, k + 1);
        }
    }
}

/// Four distinct characters occur at most as often as there are characters.
proof fn lemma_counts_le(s: Seq<char>)
    ensures
        char_count(s, '○') + char_count(s, '✓') + char_count(s, '→') + char_count(s, '✗')
            <= s.len(),
    decreases s.len(),
{
    if s.len() > 0 {
        lemma_counts_le(s.drop_last());
    }
}

fn name_is(nm: &[char], t: &str) -> (b: bool)
    ensures
        b == (nm@ == t@),
{
    crate::text::chars_eq(nm, &chars_of(t))
}

/// The number with `suffix` after it.
fn number_with(n: usize, suffix: &str) -> (r: String)
    ensures
        r@ == decimal(n as nat) + suffix@,
{
    let mut out = decimal_chars(n);
    extend_chars(&mut out, &chars_of(suffix));
    string_of(&out)
}

/// The summary of a result of the tool `name` (see `result_summary`).
pub fn tool_result_summary(name: &str, result: &str) -> (r: String)
    ensures
        r@ == result_summary(name@, result@),
{
    let v = chars_of(result);
    if v.len() == 0 {
        return String::new();
    }
    let nm = chars_of(name);
    if name_is(&nm, "read") {
        let kind = extract_xml_tag(result, "type");
        let lc: usize = match extract_xml_tag(result, "content") {
            Some(c) => {
                let ls = split_lines(&chars_of(c.as_str()));
                ls.len()
            },
            None => 0,
        };
        let ec: usize = match extract_xml_tag(result, "entries") {
            Some(e) => {
                let ls = split_lines(&chars_of(e.as_str()));
                count_nonblank(&ls)
            },
            None => 0,
        };
        let is_file = match &kind {
            Some(k) => crate::text::str_eq(k.as_str(), "file"),
            None => false,
        };
        let is_dir = match &kind {
            Some(k) => crate::text::str_eq(k.as_str(), "directory"),
            None => false,
        };
        if is_file && lc > 0 {
            number_with(lc, " lines")
        } else if is_dir && ec > 0 {
            number_with(ec, " entries")
        } else {
            String::new()
        }
    } else if name_is(&nm, "edit") || name_is(&nm, "write") {
        if chars_contain(&v, &chars_of("成功")) {
            "done".to_owned()
        } else {
            truncate_str(string_of(&trim_chars(&v)).as_str(), 40)
        }
    } else if name_is(&nm, "bash") {
        let t = trim_chars(&v);
        if t.len() == 0 {
            "no output".to_owned()
        } else {
            preview_of(&t, 3, 120)
        }
    } else if name_is(&nm, "web_fetch") {
        number_with(v.len(), " chars")
    } else if name_is(&nm, "grep") {
        if chars_start_with(&v, &chars_of("未找到")) {
            "no matches".to_owned()
        } else {
            let ls = split_lines(&v);
            let (fc, mc) = count_grep_lines(&ls);
            if fc > 0 {
                let mut out = decimal_chars(fc);
                extend_chars(&mut out, &chars_of(" files, "));
                extend_chars(&mut out, &decimal_chars(mc));
                extend_chars(&mut out, &chars_of(" matches"));
                string_of(&out)
            } else {
                String::new()
            }
        }
    } else if name_is(&nm, "glob") {
        if chars_start_with(&v, &chars_of("未找到")) {
            "no matches".to_owned()
        } else {
            let ls = split_lines(&v);
            number_with(count_nonblank(&ls), " files")
        }
    } else if name_is(&nm, "todo_write") {
        let done = count_char(&v, '✓');
        let pending = count_char(&v, '○');
        let doing = count_char(&v, '→');
        let dropped = count_char(&v, '✗');
        proof {
            lemma_counts_le(v@);
        }
        let total = pending + done + doing + dropped;
        let mut out = decimal_chars(done);
        extend_chars(&mut out, &chars_of("/"));
        extend_chars(&mut out, &decimal_chars(total));
        extend_chars(&mut out, &chars_of(" done"));
        string_of(&out)
    } else if name_is(&nm, "ask_user") {
        if chars_contain(&v, &chars_of("[User Cancelled]")) {
            "cancelled".to_owned()
        } else {
            "answered".to_owned()
        }
    } else if name_is(&nm, "task") {
        let inner = match extract_xml_tag(result, "task_result") {
            Some(x) => chars_of(x.as_str()),
            None => v,
        };
        let t = trim_chars(&inner);
        if t.len() == 0 {
            "no output".to_owned()
        } else {
            preview_of(&t, 5, 200)
        }
    } else {
        truncate_str(string_of(&trim_chars(&v)).as_str(), 60)
    }
}

} // verus!

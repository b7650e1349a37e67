//! Tool calls in the chat history: their category and verbs, and the small
//! parsers that pull facts out of tool arguments and results.

use vstd::prelude::*;

use crate::text::{
    chars_occur_at, chars_of, chars_start_with, extend_chars, occurs_at, starts_with, str_eq,
    string_of, sub_chars,
};

verus! {

/// Kind of tool, each with its own verbs and colour.
#[derive(Debug, Clone, Copy, PartialEq, Eq, Structural)]
pub enum ToolCategory {
    FileRead,
    FileWrite,
    FileEdit,
    Search,
    Glob,
    WebFetch,
    Command,
    Todo,
    Mcp,
    Skill,
    AskUser,
    Task,
    Other,
}

/// The category of the tool called `name`.
pub open spec fn category_of(name: Seq<char>) -> ToolCategory {
    if name == "read"@ {
        ToolCategory::FileRead
    } else if name == "write"@ {
        ToolCategory::FileWrite
    } else if name == "edit"@ {
        ToolCategory::FileEdit
    } else if name == "grep"@ {
        ToolCategory::Search
    } else if name == "glob"@ {
        ToolCategory::Glob
    } else if name == "web_fetch"@ {
        ToolCategory::WebFetch
    } else if name == "bash"@ {
        ToolCategory::Command
    } else if name == "todo_write"@ {
        ToolCategory::Todo
    } else if name == "ask_user"@ {
        ToolCategory::AskUser
    } else if name == "skill"@ {
        ToolCategory::Skill
    } else if name == "task"@ {
        ToolCategory::Task
    } else if starts_with(name, "mcp_"@) {
        ToolCategory::Mcp
    } else {
        ToolCategory::Other
    }
}

/// The verb shown while a tool of the category runs.
pub open spec fn active_verb(c: ToolCategory) -> Seq<char> {
    match c {
        ToolCategory::FileRead => "Reading"@,
        ToolCategory::FileWrite => "Writing"@,
        ToolCategory::FileEdit => "Editing"@,
        ToolCategory::Search => "Searching"@,
        ToolCategory::Glob => "Listing"@,
        ToolCategory::WebFetch => "Fetching"@,
        ToolCategory::Command => "Running"@,
        ToolCategory::Todo => "Updating"@,
        ToolCategory::Mcp => "Calling"@,
        ToolCategory::Skill => "Load skill"@,
        ToolCategory::AskUser => "Asking"@,
        ToolCategory::Task => "Delegating"@,
        ToolCategory::Other => "Running"@,
    }
}

/// The verb shown once a tool of the category is done.
pub open spec fn done_verb(c: ToolCategory) -> Seq<char> {
    match c {
        ToolCategory::FileRead => "Read"@,
        ToolCategory::FileWrite => "Wrote"@,
        ToolCategory::FileEdit => "Edited"@,
        ToolCategory::Search => "Searched"@,
        ToolCategory::Glob => "Listed"@,
        ToolCategory::WebFetch => "Fetched"@,
        ToolCategory::Command => "Ran"@,
        ToolCategory::Todo => "Updated"@,
        ToolCategory::Mcp => "Called"@,
        ToolCategory::Skill => "Load skill"@,
        ToolCategory::AskUser => "Asked"@,
        ToolCategory::Task => "Delegated"@,
        ToolCategory::Other => "Ran"@,
    }
}

impl ToolCategory {
    pub fn from_name(name: &str) -> (r: Self)
        ensures
            r == category_of(name@),
    {
        if str_eq(name, "read") {
            ToolCategory::FileRead
        } else if str_eq(name, "write") {
            ToolCategory::FileWrite
        } else if str_eq(name, "edit") {
            ToolCategory::FileEdit
        } else if str_eq(name, "grep") {
            ToolCategory::Search
        } else if str_eq(name, "glob") {
            ToolCategory::Glob
        } else if str_eq(name, "web_fetch") {
            ToolCategory::WebFetch
        } else if str_eq(name, "bash") {
            ToolCategory::Command
        } else if str_eq(name, "todo_write") {
            ToolCategory::Todo
        } else if str_eq(name, "ask_user") {
            ToolCategory::AskUser
        } else if str_eq(name, "skill") {
            ToolCategory::Skill
        } else if str_eq(name, "task") {
            ToolCategory::Task
        } else if chars_start_with(&chars_of(name), &chars_of("mcp_")) {
            ToolCategory::Mcp
        } else {
            ToolCategory::Other
        }
    }

    pub fn verb_active(&self) -> (r: &'static str)
        ensures
            r@ == active_verb(*self),
    {
        match self {
            ToolCategory::FileRead => "Reading",
            ToolCategory::FileWrite => "Writing",
            ToolCategory::FileEdit => "Editing",
            ToolCategory::Search => "Searching",
            ToolCategory::Glob => "Listing",
            ToolCategory::WebFetch => "Fetching",
            ToolCategory::Command => "Running",
            ToolCategory::Todo => "Updating",
            ToolCategory::Mcp => "Calling",
            ToolCategory::Skill => "Load skill",
            ToolCategory::AskUser => "Asking",
            ToolCategory::Task => "Delegating",
            ToolCategory::Other => "Running",
        }
    }

    pub fn verb_done(&self) -> (r: &'static str)
        ensures
            r@ == done_verb(*self),
    {
        match self {
            ToolCategory::FileRead => "Read",
            ToolCategory::FileWrite => "Wrote",
            ToolCategory::FileEdit => "Edited",
            ToolCategory::Search => "Searched",
            ToolCategory::Glob => "Listed",
            ToolCategory::WebFetch => "Fetched",
            ToolCategory::Command => "Ran",
            ToolCategory::Todo => "Updated",
            ToolCategory::Mcp => "Called",
            ToolCategory::Skill => "Load skill",
            ToolCategory::AskUser => "Asked",
            ToolCategory::Task => "Delegated",
            ToolCategory::Other => "Ran",
        }
    }
}

/// Read-only tools, whose calls are grouped as exploring.
pub open spec fn readonly(name: Seq<char>) -> bool {
    let c = category_of(name);
    c == ToolCategory::FileRead || c == ToolCategory::Search || c == ToolCategory::Glob || c
        == ToolCategory::WebFetch
}

pub fn is_readonly_tool(name: &str) -> (b: bool)
    ensures
        b == readonly(name@),
{
    match ToolCategory::from_name(name) {
        ToolCategory::FileRead | ToolCategory::Search | ToolCategory::Glob
        | ToolCategory::WebFetch => true,
        _ => false,
    }
}

/// `s` cut to at most `max_len` characters: longer strings keep their first
/// `max_len - 3` characters (none when `max_len` is below 3) and get `...`.
pub open spec fn truncated(s: Seq<char>, max_len: int) -> Seq<char> {
    if s.len() <= max_len {
        s
    } else {
        let keep = if max_len >= 3 {
            max_len - 3
        } else {
            0
        };
        s.take(keep) + "..."@
    }
}

pub fn truncate_str(s: &str, max_len: usize) -> (r: String)
    ensures
        r@ == truncated(s@, max_len as int),
{
    let v = chars_of(s);
    if v.len() <= max_len {
        return string_of(&v);
    }
    let keep = max_len.saturating_sub(3);
    let mut out = sub_chars(&v, 0, keep);
    assert(v@.subrange(0, keep as int) =~= v@.take(keep as int));
    extend_chars(&mut out, &chars_of("..."));
    string_of(&out)
}

/// A cut text never exceeds its limit (of at least three characters), ends
/// in `...` when it was cut, and is the text itself when the text fits.
pub proof fn law_truncation_fits(s: Seq<char>, max_len: int)
    requires
        max_len >= 3,
    ensures
        truncated(s, max_len).len() <= max_len,
        s.len() <= max_len ==> truncated(s, max_len) == s,
        s.len() > max_len ==> truncated(s, max_len) == s.take(max_len - 3) + "..."@,
{
    reveal_strlit("...");
}

/// Index of the first occurrence of `p` in `s`, or -1 (`str::find`).
pub open spec fn find_first(s: Seq<char>, p: Seq<char>) -> int
    decreases s.len(),
{
    if s.len() < p.len() {
        -1
    } else if s.take(p.len() as int) == p {
        0
    } else if s.len() == 0 {
        -1
    } else {
        let r = find_first(s.skip(1), p);
        if r < 0 {
            -1
        } else {
            r + 1
        }
    }
}

pub proof fn lemma_find_first_bounds(s: Seq<char>, p: Seq<char>)
    ensures
        find_first(s, p) >= 0 ==> find_first(s, p) + p.len() <= s.len() && occurs_at(
            s,
            p,
            find_first(s, p),
        ),
        find_first(s, p) >= -1,
    decreases s.len(),
{
    if s.len() >= p.len() && s.take(p.len() as int) != p && s.len() > 0 {
        lemma_find_first_bounds(s.skip(1), p);
        let r = find_first(s.skip(1), p);
        if r >= 0 {
            assert(s.subrange(r + 1, r + 1 + p.len()) =~= s.skip(1).subrange(r, r + p.len()));
        }
    } else if s.len() >= p.len() && s.take(p.len() as int) == p {
        assert(s.subrange(0, p.len() as int) =~= s.take(p.len() as int));
    }
}

/// Index of the first occurrence of `p` in `v[from..]`, counted from `from`.
pub fn find_from(v: &[char], p: &[char], from: usize) -> (r: Option<usize>)
    requires
        from <= v@.len(),
    ensures
        match r {
            Some(i) => i as int == from + find_first(v@.skip(from as int), p@) && find_first(
                v@.skip(from as int),
                p@,
            ) >= 0,
            None => find_first(v@.skip(from as int), p@) < 0,
        },
{
    let mut i = from;
    while i <= v.len()
        invariant
            from <= i <= v@.len() + 1,
            i <= v@.len() ==> find_first(v@.skip(from as int), p@) == (if find_first(
                v@.skip(i as int),
                p@,
            ) < 0 {
                -1
            } else {
                find_first(v@.skip(i as int), p@) + (i - from)
            }),
            i > v@.len() ==> find_first(v@.skip(from as int), p@) < 0,
        decreases v@.len() + 1 - i,
    {
        let ghost rest = v@.skip(i as int);
        if chars_occur_at(v, p, i) {
            proof {
                assert(rest.take(p@.len() as int) =~= v@.subrange(i as int, i + p@.len()));
            }
            return Some(i);
        }
        proof {
            if rest.len() >= p@.len() {
                assert(rest.take(p@.len() as int) =~= v@.subrange(i as int, i + p@.len()));
            }
        }
        if i == v.len() {
            return None;
        }
        proof {
            assert(rest.skip(1) =~= v@.skip(i + 1));
        }
        i = i + 1;
    }
    None
}

/// The text between the first `<tag>` and the first `</tag>` after it.
pub open spec fn xml_tag(content: Seq<char>, tag: Seq<char>) -> Option<Seq<char>> {
    let open = "<"@ + tag + ">"@;
    let close = "</"@ + tag + ">"@;
    let start = find_first(content, open);
    if start < 0 {
        None
    } else {
        let after = content.skip(start + open.len());
        let end = find_first(after, close);
        if end < 0 {
            None
        } else {
            Some(after.take(end))
        }
    }
}

pub fn extract_xml_tag(content: &str, tag: &str) -> (r: Option<String>)
    ensures
        match xml_tag(content@, tag@) {
            Some(t) => r matches Some(s) && s@ == t,
            None => r is None,
        },
{
    let v = chars_of(content);
    let t = chars_of(tag);
    let mut open = chars_of("<");
    extend_chars(&mut open, &t);
    extend_chars(&mut open, &chars_of(">"));
    let mut close = chars_of("</");
    extend_chars(&mut close, &t);
    extend_chars(&mut close, &chars_of(">"));
    proof {
        assert(v@.skip(0) =~= v@);
        lemma_find_first_bounds(v@, open@);
    }
    let start = match find_from(&v, &open, 0) {
        Some(s) => s,
        None => return None,
    };
    proof {
        assert(find_first(v@.skip(0), open@) == find_first(v@, open@));
        assert(start + open@.len() <= v@.len());
    }
    let _vl = v.len();
    let after_start = start + open.len();
    proof {
        assert(v@.skip(after_start as int) =~= v@.skip(start as int + open@.len()));
    }
    let end = match find_from(&v, &close, after_start) {
        Some(e) => e,
        None => return None,
    };
    proof {
        lemma_find_first_bounds(v@.skip(after_start as int), close@);
    }
    let inner = sub_chars(&v, after_start, end);
    proof {
        assert(inner@ =~= v@.skip(after_start as int).take(end - after_start));
    }
    Some(string_of(&inner))
}

/// The `task_id` attribute in a task tool result, when present and not empty.
pub open spec fn task_id_of(result: Seq<char>) -> Option<Seq<char>> {
    let marker = "task_id=\""@;
    let i = find_first(result, marker);
    if i < 0 {
        None
    } else {
        let rest = result.skip(i + marker.len());
        let end = find_first(rest, "\""@);
        if end <= 0 {
            None
        } else {
            Some(rest.take(end))
        }
    }
}

/// Reads the sub-session id out of a task tool result, whose first line
/// looks like `<task subagent="..." description="..." task_id="ID" state="...">`.
pub fn parse_task_id_from_result(result: &str) -> (r: Option<String>)
    ensures
        match task_id_of(result@) {
            Some(t) => r matches Some(s) && s@ == t,
            None => r is None,
        },
{
    let v = chars_of(result);
    let marker = chars_of("task_id=\"");
    proof {
        assert(v@.skip(0) =~= v@);
        lemma_find_first_bounds(v@, marker@);
    }
    let i = match find_from(&v, &marker, 0) {
        Some(i) => i,
        None => return None,
    };
    proof {
        assert(find_first(v@.skip(0), marker@) == find_first(v@, marker@));
        assert(i + marker@.len() <= v@.len());
    }
    let _vl = v.len();
    let start = i + marker.len();
    proof {
        assert(v@.skip(start as int) =~= v@.skip(i as int + marker@.len()));
    }
    let quote = chars_of("\"");
    let end = match find_from(&v, &quote, start) {
        Some(e) => e,
        None => return None,
    };
    proof {
        lemma_find_first_bounds(v@.skip(start as int), quote@);
    }
    if end == start {
        return None;
    }
    let id = sub_chars(&v, start, end);
    proof {
        assert(id@ =~= v@.skip(start as int).take(end - start));
    }
    Some(string_of(&id))
}

} // verus!

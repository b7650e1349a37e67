//! One-line summaries of tool calls, made from the JSON arguments of the call
//! (the file read, the command run, the pattern searched ...), and the items
//! of an exploring cell.

use vstd::prelude::*;

use crate::text::{
    chars_of, chars_start_with, decimal, decimal_chars, decimal_u64_chars, extend_chars,
    starts_with, str_eq, string_of, sub_chars,
};
use crate::tool::{category_of, done_verb, truncate_str, truncated, ToolCategory};
use crate::json_args::{
    json_array_len, json_array_member_len, json_bool_field, json_bool_member, json_first_field,
    json_first_member, json_str_field, json_str_member, json_u64_field, json_u64_member, opt_view,
    or_else, or_else_string,
};
use crate::tool_summary::{result_summary, tool_result_summary};

verus! {

// ===== Summaries, per tool =====

/// The last line of a read of `l` lines from line `o`: `o + l - 1`, wrapped
/// to 64 bits as the release build computes it.
pub open spec fn last_line(o: u64, l: u64) -> nat {
    ((o + l - 1) % 0x1_0000_0000_0000_0000int) as nat
}

pub open spec fn read_text(path: Seq<char>, offset: Option<u64>, limit: Option<u64>) -> Seq<char> {
    match offset {
        Some(o) => match limit {
            Some(l) => path + " (L"@ + decimal(o as nat) + "-L"@ + decimal(last_line(o, l)) + ")"@,
            None => path + " (from L"@ + decimal(o as nat) + ")"@,
        },
        None => path,
    }
}

pub open spec fn edit_text(path: Seq<char>, replace_all: bool) -> Seq<char> {
    if replace_all {
        path + " (replace all)"@
    } else {
        path
    }
}

pub open spec fn web_fetch_text(url: Seq<char>, format: Seq<char>) -> Seq<char> {
    if format == "markdown"@ {
        url
    } else {
        url + " ["@ + format + "]"@
    }
}

pub open spec fn grep_text(pattern: Seq<char>, filter: Option<Seq<char>>, path: Seq<char>) -> Seq<
    char,
> {
    match filter {
        Some(inc) => "\""@ + pattern + "\" in "@ + path + " ("@ + inc + ")"@,
        None => "\""@ + pattern + "\" in "@ + path,
    }
}

pub open spec fn glob_text(pattern: Seq<char>, path: Seq<char>) -> Seq<char> {
    pattern + " in "@ + path
}

pub open spec fn items_text(count: nat) -> Seq<char> {
    decimal(count) + " items"@
}

pub open spec fn questions_text(count: nat) -> Seq<char> {
    if count == 0 {
        Seq::empty()
    } else if count > 1 {
        decimal(count) + " questions"@
    } else {
        decimal(count) + " question"@
    }
}

pub open spec fn task_text(subagent: Seq<char>, desc: Seq<char>) -> Seq<char> {
    if desc.len() == 0 {
        subagent
    } else {
        "["@ + subagent + "] "@ + desc
    }
}

/// `s` without the prefix `p`, or `s` itself when it does not start with `p`.
pub open spec fn strip_prefix(s: Seq<char>, p: Seq<char>) -> Seq<char> {
    if starts_with(s, p) {
        s.skip(p.len() as int)
    } else {
        s
    }
}

pub open spec fn mcp_text(name: Seq<char>, first: Option<(Seq<char>, Seq<char>)>) -> Seq<char> {
    let server = strip_prefix(name, "mcp_"@);
    match first {
        Some((k, v)) => if k.len() == 0 {
            server
        } else {
            server + " "@ + truncated(v, 40)
        },
        None => server,
    }
}

pub open spec fn skill_text(name: Seq<char>, prompt: Seq<char>) -> Seq<char> {
    let skill = strip_prefix(name, "skill_"@);
    if prompt.len() == 0 {
        skill
    } else {
        skill + " \""@ + truncated(prompt, 40) + "\""@
    }
}

/// The summary of a call of tool `name` with the JSON arguments `args`.
pub open spec fn call_summary(name: Seq<char>, args: Seq<char>) -> Seq<char> {
    if name == "read"@ {
        read_text(
            or_else(json_str_member(args, "file_path"@), ""@),
            json_u64_member(args, "offset"@),
            json_u64_member(args, "limit"@),
        )
    } else if name == "edit"@ {
        edit_text(
            or_else(json_str_member(args, "file_path"@), ""@),
            json_bool_member(args, "replace_all"@) == Some(true),
        )
    } else if name == "write"@ {
        or_else(json_str_member(args, "file_path"@), ""@)
    } else if name == "bash"@ {
        truncated(or_else(json_str_member(args, "command_string"@), ""@), 60)
    } else if name == "web_fetch"@ {
        web_fetch_text(
            or_else(json_str_member(args, "url"@), ""@),
            or_else(json_str_member(args, "format"@), "markdown"@),
        )
    } else if name == "grep"@ {
        grep_text(
            or_else(json_str_member(args, "pattern"@), ""@),
            json_str_member(args, "include"@),
            or_else(json_str_member(args, "path"@), "."@),
        )
    } else if name == "glob"@ {
        glob_text(
            or_else(json_str_member(args, "pattern"@), ""@),
            or_else(json_str_member(args, "path"@), "."@),
        )
    } else if name == "todo_write"@ {
        items_text(
            match json_array_member_len(args, "todos"@) {
                Some(n) => n as nat,
                None => 0,
            },
        )
    } else if name == "ask_user"@ {
        questions_text(
            match json_array_member_len(args, "questions"@) {
                Some(n) => n as nat,
                None => 0,
            },
        )
    } else if name == "skill"@ {
        or_else(json_str_member(args, "name"@), ""@)
    } else if name == "task"@ {
        task_text(
            or_else(json_str_member(args, "subagent"@), ""@),
            or_else(json_str_member(args, "description"@), ""@),
        )
    } else if category_of(name) == ToolCategory::Mcp {
        mcp_text(name, json_first_member(args))
    } else if category_of(name) == ToolCategory::Skill {
        skill_text(name, or_else(json_str_member(args, "prompt"@), ""@))
    } else {
        truncated(args, 60)
    }
}

/// `o + l - 1` wrapped to 64 bits.
pub fn last_line_of(o: u64, l: u64) -> (r: u64)
    ensures
        r == last_line(o, l),
{
    if l == 0 {
        if o == 0 {
            u64::MAX
        } else {
            o - 1
        }
    } else {
        let l1 = l - 1;
        if o <= u64::MAX - l1 {
            o + l1
        } else {
            o - (u64::MAX - l1) - 1
        }
    }
}

/// The summary of a read: the path, and the lines read when an offset is given.
pub fn read_call_summary(path: &str, offset: Option<u64>, limit: Option<u64>) -> (r: String)
    ensures
        r@ == read_text(path@, offset, limit),
{
    let mut out = chars_of(path);
    match offset {
        Some(o) => match limit {
            Some(l) => {
                extend_chars(&mut out, &chars_of(" (L"));
                extend_chars(&mut out, &decimal_u64_chars(o));
                extend_chars(&mut out, &chars_of("-L"));
                let last = last_line_of(o, l);
                extend_chars(&mut out, &decimal_u64_chars(last));
                extend_chars(&mut out, &chars_of(")"));
            },
            None => {
                extend_chars(&mut out, &chars_of(" (from L"));
                extend_chars(&mut out, &decimal_u64_chars(o));
                extend_chars(&mut out, &chars_of(")"));
            },
        },
        None => {},
    }
    string_of(&out)
}

/// The summary of an edit: the path, marked when every match is replaced.
pub fn edit_call_summary(path: &str, replace_all: bool) -> (r: String)
    ensures
        r@ == edit_text(path@, replace_all),
{
    let mut out = chars_of(path);
    if replace_all {
        extend_chars(&mut out, &chars_of(" (replace all)"));
    }
    string_of(&out)
}

/// The summary of a fetch: the URL, with the format unless it is markdown.
pub fn web_fetch_call_summary(url: &str, format: &str) -> (r: String)
    ensures
        r@ == web_fetch_text(url@, format@),
{
    let mut out = chars_of(url);
    if !str_eq(format, "markdown") {
        extend_chars(&mut out, &chars_of(" ["));
        extend_chars(&mut out, &chars_of(format));
        extend_chars(&mut out, &chars_of("]"));
    }
    string_of(&out)
}

/// The summary of a search: the quoted pattern, where, and the file filter.
pub fn grep_call_summary(pattern: &str, filter: Option<&str>, path: &str) -> (r: String)
    ensures
        r@ == grep_text(
            pattern@,
            match filter {
                Some(i) => Some(i@),
                None => None,
            },
            path@,
        ),
{
    let mut out = chars_of("\"");
    extend_chars(&mut out, &chars_of(pattern));
    extend_chars(&mut out, &chars_of("\" in "));
    extend_chars(&mut out, &chars_of(path));
    match filter {
        Some(inc) => {
            extend_chars(&mut out, &chars_of(" ("));
            extend_chars(&mut out, &chars_of(inc));
            extend_chars(&mut out, &chars_of(")"));
        },
        None => {},
    }
    string_of(&out)
}

/// The summary of a file listing: the pattern and where.
pub fn glob_call_summary(pattern: &str, path: &str) -> (r: String)
    ensures
        r@ == glob_text(pattern@, path@),
{
    let mut out = chars_of(pattern);
    extend_chars(&mut out, &chars_of(" in "));
    extend_chars(&mut out, &chars_of(path));
    string_of(&out)
}

/// The summary of a todo update: how many items it writes.
pub fn todo_call_summary(count: usize) -> (r: String)
    ensures
        r@ == items_text(count as nat),
{
    let mut out = decimal_chars(count);
    extend_chars(&mut out, &chars_of(" items"));
    string_of(&out)
}

/// The summary of a question to the user: how many questions, or nothing.
pub fn ask_user_call_summary(count: usize) -> (r: String)
    ensures
        r@ == questions_text(count as nat),
{
    if count == 0 {
        return String::new();
    }
    let mut out = decimal_chars(count);
    if count > 1 {
        extend_chars(&mut out, &chars_of(" questions"));
    } else {
        extend_chars(&mut out, &chars_of(" question"));
    }
    string_of(&out)
}

/// The summary of a delegated task: the subagent, and the description in
/// brackets after it when there is one.
pub fn task_call_summary(subagent: &str, desc: &str) -> (r: String)
    ensures
        r@ == task_text(subagent@, desc@),
{
    let d = chars_of(desc);
    if d.len() == 0 {
        return string_of(&chars_of(subagent));
    }
    let mut out = chars_of("[");
    extend_chars(&mut out, &chars_of(subagent));
    extend_chars(&mut out, &chars_of("] "));
    extend_chars(&mut out, &d);
    string_of(&out)
}

fn strip_prefix_chars(s: &str, p: &str) -> (r: Vec<char>)
    ensures
        r@ == strip_prefix(s@, p@),
{
    let v = chars_of(s);
    let q = chars_of(p);
    if chars_start_with(&v, &q) {
        let r = sub_chars(&v, q.len(), v.len());
        assert(v@.subrange(q@.len() as int, v@.len() as int) =~= v@.skip(q@.len() as int));
        r
    } else {
        v
    }
}

/// The summary of an MCP call: the server (the name without `mcp_`) and the
/// first argument's value as JSON, cut to 40 characters.
pub fn mcp_call_summary(name: &str, first: Option<(String, String)>) -> (r: String)
    ensures
        r@ == mcp_text(
            name@,
            match first {
                Some(p) => Some((p.0@, p.1@)),
                None => None,
            },
        ),
{
    let mut out = strip_prefix_chars(name, "mcp_");
    match first {
        Some(p) => {
            let k = chars_of(&p.0);
            if k.len() != 0 {
                extend_chars(&mut out, &chars_of(" "));
                extend_chars(&mut out, &chars_of(&truncate_str(&p.1, 40)));
            }
        },
        None => {},
    }
    string_of(&out)
}

/// The summary of a skill call: the skill (the name without `skill_`) and
/// the quoted prompt, cut to 40 characters, when there is one.
pub fn skill_call_summary(name: &str, prompt: &str) -> (r: String)
    ensures
        r@ == skill_text(name@, prompt@),
{
    let mut out = strip_prefix_chars(name, "skill_");
    let pv = chars_of(prompt);
    if pv.len() != 0 {
        extend_chars(&mut out, &chars_of(" \""));
        extend_chars(&mut out, &chars_of(&truncate_str(prompt, 40)));
        extend_chars(&mut out, &chars_of("\""));
    }
    string_of(&out)
}

fn array_count(o: Option<usize>) -> (n: usize)
    ensures
        n == match o {
            Some(k) => k,
            None => 0,
        },
{
    match o {
        Some(k) => k,
        None => 0,
    }
}

/// The summary of a call of tool `name` with the JSON text `arguments`.
pub fn tool_call_summary(name: &str, arguments: &str) -> (r: String)
    ensures
        r@ == call_summary(name@, arguments@),
{
    if str_eq(name, "read") {
        let path = or_else_string(json_str_field(arguments, "file_path"), "");
        let offset = json_u64_field(arguments, "offset");
        let limit = json_u64_field(arguments, "limit");
        read_call_summary(&string_of(&path), offset, limit)
    } else if str_eq(name, "edit") {
        let path = or_else_string(json_str_field(arguments, "file_path"), "");
        let all = json_bool_field(arguments, "replace_all");
        let replace_all = match all {
            Some(b) => b,
            None => false,
        };
        edit_call_summary(&string_of(&path), replace_all)
    } else if str_eq(name, "write") {
        string_of(&or_else_string(json_str_field(arguments, "file_path"), ""))
    } else if str_eq(name, "bash") {
        let cmd = or_else_string(json_str_field(arguments, "command_string"), "");
        truncate_str(&string_of(&cmd), 60)
    } else if str_eq(name, "web_fetch") {
        let url = or_else_string(json_str_field(arguments, "url"), "");
        let format = or_else_string(json_str_field(arguments, "format"), "markdown");
        web_fetch_call_summary(&string_of(&url), &string_of(&format))
    } else if str_eq(name, "grep") {
        let pattern = or_else_string(json_str_field(arguments, "pattern"), "");
        let filter = json_str_field(arguments, "include");
        let path = or_else_string(json_str_field(arguments, "path"), ".");
        match filter {
            Some(inc) => grep_call_summary(
                &string_of(&pattern),
                Some(inc.as_str()),
                &string_of(&path),
            ),
            None => grep_call_summary(&string_of(&pattern), None, &string_of(&path)),
        }
    } else if str_eq(name, "glob") {
        let pattern = or_else_string(json_str_field(arguments, "pattern"), "");
        let path = or_else_string(json_str_field(arguments, "path"), ".");
        glob_call_summary(&string_of(&pattern), &string_of(&path))
    } else if str_eq(name, "todo_write") {
        todo_call_summary(array_count(json_array_len(arguments, "todos")))
    } else if str_eq(name, "ask_user") {
        ask_user_call_summary(array_count(json_array_len(arguments, "questions")))
    } else if str_eq(name, "skill") {
        string_of(&or_else_string(json_str_field(arguments, "name"), ""))
    } else if str_eq(name, "task") {
        let subagent = or_else_string(json_str_field(arguments, "subagent"), "");
        let desc = or_else_string(json_str_field(arguments, "description"), "");
        task_call_summary(&string_of(&subagent), &string_of(&desc))
    } else {
        match ToolCategory::from_name(name) {
            ToolCategory::Mcp => mcp_call_summary(name, json_first_field(arguments)),
            ToolCategory::Skill => {
                let prompt = or_else_string(json_str_field(arguments, "prompt"), "");
                skill_call_summary(name, &string_of(&prompt))
            },
            _ => truncate_str(arguments, 60),
        }
    }
}

// ===== Diff metadata of an edit =====

/// The old and new text of an edited file, and its path.
#[derive(Debug, Clone)]
pub struct DiffData {
    pub old: Option<String>,
    pub new: String,
    pub path: String,
}

/// The diff metadata in a JSON text: present when `new` and `path` are
/// strings; `old` is kept when it is a string too.
pub open spec fn diff_data(json: Seq<char>) -> Option<(Option<Seq<char>>, Seq<char>, Seq<char>)> {
    match json_str_member(json, "new"@) {
        Some(n) => match json_str_member(json, "path"@) {
            Some(p) => Some((json_str_member(json, "old"@), n, p)),
            None => None,
        },
        None => None,
    }
}

pub fn parse_diff_data(json: &str) -> (r: Option<DiffData>)
    ensures
        match diff_data(json@) {
            Some((o, n, p)) => r matches Some(d) && opt_view(d.old) == o && d.new@ == n && d.path@
                == p,
            None => r is None,
        },
{
    let new = json_str_field(json, "new")?;
    let path = json_str_field(json, "path")?;
    let old = json_str_field(json, "old");
    Some(DiffData { old, new, path })
}

// ===== Exploring items =====

/// One line of an exploring cell: the verb of the tool, and what it did.
#[derive(Debug, Clone)]
pub struct ExploreItem {
    pub label: String,
    pub detail: String,
}

/// The detail of an exploring line: the call summary, then ` — ` and the
/// result summary when there is a result with a non-empty summary.
pub open spec fn explore_detail(call: Seq<char>, result: Option<Seq<char>>) -> Seq<char> {
    match result {
        Some(rs) => if rs.len() == 0 {
            call
        } else if call.len() == 0 {
            rs
        } else {
            call + " — "@ + rs
        },
        None => call,
    }
}

/// The exploring line for a call of tool `name` with `arguments`, and its
/// result if there is one.
pub fn explore_item_from(name: &str, arguments: &str, result: Option<&str>) -> (r: ExploreItem)
    ensures
        r.label@ == done_verb(category_of(name@)),
        r.detail@ == explore_detail(
            call_summary(name@, arguments@),
            match result {
                Some(res) => Some(result_summary(name@, res@)),
                None => None,
            },
        ),
{
    let cat = ToolCategory::from_name(name);
    let label = string_of(&chars_of(cat.verb_done()));
    let detail = tool_call_summary(name, arguments);
    match result {
        Some(res) => {
            let rs = tool_result_summary(name, res);
            let rv = chars_of(&rs);
            if rv.len() == 0 {
                ExploreItem { label, detail }
            } else {
                let dv = chars_of(&detail);
                if dv.len() == 0 {
                    ExploreItem { label, detail: rs }
                } else {
                    let mut out = dv;
                    extend_chars(&mut out, &chars_of(" — "));
                    extend_chars(&mut out, &rv);
                    ExploreItem { label, detail: string_of(&out) }
                }
            }
        },
        None => ExploreItem { label, detail },
    }
}

} // verus!

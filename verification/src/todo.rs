//! The to-do list shown for a `todo_write` call, read from the tool's
//! result text (one item per line like `1. ✓ Write tests [高] completed`),
//! or from the call's JSON arguments while the result has not come.

use vstd::prelude::*;

use crate::text::{
    chars_eq, chars_of, chars_start_with, starts_with, string_of, sub_chars, trim, trim_chars,
    trim_start,
};
use crate::tool::{find_first, find_from, lemma_find_first_bounds};
use crate::json_args::{
    json_array_len, json_array_member_len, json_item_str_field, json_item_str_member, or_else,
    or_else_string,
};
use crate::tool_summary::{lines, split_lines};

verus! {

/// The state of an item, by its mark.
#[derive(Debug, Clone, Copy, PartialEq, Eq, Structural)]
pub enum TodoStatus {
    Completed,
    InProgress,
    Pending,
    Cancelled,
}

#[derive(Debug, Clone)]
pub struct TodoItem {
    pub content: String,
    pub status: TodoStatus,
    pub priority: String,
}

pub struct TodoItemView {
    pub content: Seq<char>,
    pub status: TodoStatus,
    pub priority: Seq<char>,
}

/// The to-do list of a `todo_write` result.
#[derive(Debug, Clone)]
pub struct TodoList {
    pub items: Vec<TodoItem>,
    /// Whether there are items and all are completed or cancelled.
    pub all_done: bool,
}

pub open spec fn item_view(i: TodoItem) -> TodoItemView {
    TodoItemView { content: i.content@, status: i.status, priority: i.priority@ }
}

/// Index of the last occurrence of `p` in `s`, or -1 (`str::rfind`).
pub open spec fn find_last(s: Seq<char>, p: Seq<char>) -> int
    decreases s.len(),
{
    if s.len() < p.len() {
        -1
    } else if s.skip(s.len() - p.len()) == p {
        s.len() - p.len()
    } else if s.len() == 0 {
        -1
    } else {
        find_last(s.drop_last(), p)
    }
}

/// The status a mark stands for.
pub open spec fn mark_status(c: char) -> Option<TodoStatus> {
    if c == '✓' {
        Some(TodoStatus::Completed)
    } else if c == '→' {
        Some(TodoStatus::InProgress)
    } else if c == '✗' {
        Some(TodoStatus::Cancelled)
    } else if c == '○' {
        Some(TodoStatus::Pending)
    } else {
        None
    }
}

/// The item a line describes: after the number and `. ` (when present)
/// comes a mark; the priority is what the first `[...]` holds (`中` without
/// one), the content what comes before the last ` [`.
pub open spec fn todo_item(line: Seq<char>) -> Option<TodoItemView> {
    let t = trim(line);
    if t.len() == 0 || starts_with(t, "任务列表已更新"@) {
        None
    } else {
        let d = find_first(t, ". "@);
        let rest = if d >= 0 {
            t.skip(d + 2)
        } else {
            t
        };
        if rest.len() == 0 || mark_status(rest[0]) is None {
            None
        } else {
            let a = trim_start(rest.skip(1));
            let open = find_first(a, "["@);
            let priority = if open >= 0 {
                let close = find_first(a.skip(open), "]"@);
                if close >= 0 {
                    a.subrange(open + 1, open + close)
                } else {
                    "中"@
                }
            } else {
                "中"@
            };
            let b = find_last(a, " ["@);
            let content = if b >= 0 {
                a.take(b)
            } else {
                a
            };
            Some(
                TodoItemView {
                    content,
                    status: mark_status(rest[0])->0,
                    priority,
                },
            )
        }
    }
}

/// The items of the first `k` lines.
pub open spec fn todo_items(ls: Seq<Seq<char>>, k: int) -> Seq<TodoItemView>
    decreases k,
{
    if k <= 0 || ls.len() == 0 {
        Seq::empty()
    } else {
        let before = todo_items(ls, k - 1);
        match todo_item(ls[k - 1]) {
            Some(it) => before.push(it),
            None => before,
        }
    }
}

pub open spec fn settled(s: TodoStatus) -> bool {
    s == TodoStatus::Completed || s == TodoStatus::Cancelled
}

proof fn lemma_find_last_bounds(s: Seq<char>, p: Seq<char>)
    ensures
        find_last(s, p) >= -1,
        find_last(s, p) >= 0 ==> find_last(s, p) + p.len() <= s.len(),
    decreases s.len(),
{
    if s.len() >= p.len() && s.skip(s.len() - p.len()) != p && s.len() > 0 {
        lemma_find_last_bounds(s.drop_last(), p);
    }
}

fn rfind(v: &[char], p: &[char]) -> (r: Option<usize>)
    ensures
        match r {
            Some(i) => i as int == find_last(v@, p@) && i >= 0,
            None => find_last(v@, p@) < 0,
        },
{
    let n = v.len();
    let m = p.len();
    if m > n {
        return None;
    }
    let mut end = n;
    proof {
        assert(v@.take(n as int) =~= v@);
    }
    while end >= m
        invariant
            m <= n == v@.len(),
            m == p@.len(),
            end <= n,
            find_last(v@, p@) == find_last(v@.take(end as int), p@),
        decreases end,
    {
        let start = end - m;
        let ghost s = v@.take(end as int);
        proof {
            assert(s.len() == end);
            assert(s.len() - p@.len() == start);
            assert(s.skip(start as int) =~= v@.subrange(start as int, end as int));
        }
        if crate::text::chars_occur_at(v, p, start) {
            return Some(start);
        }
        if end == 0 {
            proof {
                assert(s.len() == 0);
            }
            return None;
        }
        proof {
            assert(s.drop_last() =~= v@.take(end - 1));
        }
        end = end - 1;
    }
    proof {
        assert(v@.take(end as int).len() < p@.len());
    }
    None
}

/// The item a line describes (see `todo_item`).
fn parse_todo_line(line: &[char]) -> (r: Option<TodoItem>)
    ensures
        match todo_item(line@) {
            Some(it) => r matches Some(x) && item_view(x) == it,
            None => r is None,
        },
{
    let t = trim_chars(line);
    if t.len() == 0 || chars_start_with(&t, &chars_of("任务列表已更新")) {
        return None;
    }
    let dot = chars_of(". ");
    proof {
        lemma_find_first_bounds(t@, dot@);
        assert(t@.skip(0) =~= t@);
    }
    let rest = match find_from(&t, &dot, 0) {
        Some(d) => {
            proof {
                assert(dot@.len() == 2) by {
                    reveal_strlit(". ");
                }
            }
            sub_chars(&t, d + 2, t.len())
        },
        None => t,
    };
    proof {
        if find_first(t@, dot@) >= 0 {
            assert(rest@ =~= t@.skip(find_first(t@, dot@) + 2));
        }
    }
    if rest.len() == 0 {
        return None;
    }
    let c = rest[0];
    let status = if c == '✓' {
        TodoStatus::Completed
    } else if c == '→' {
        TodoStatus::InProgress
    } else if c == '✗' {
        TodoStatus::Cancelled
    } else if c == '○' {
        TodoStatus::Pending
    } else {
        return None;
    };
    let after = sub_chars(&rest, 1, rest.len());
    proof {
        assert(after@ =~= rest@.skip(1));
    }
    let a = {
        let k = crate::text::skip_ws(&after, 0, after.len());
        proof {
            assert(after@.subrange(0, after@.len() as int) =~= after@);
        }
        sub_chars(&after, k, after.len())
    };
    proof {
        assert(a@ =~= trim_start(after@));
    }
    let open_b = chars_of("[");
    let close_b = chars_of("]");
    proof {
        lemma_find_first_bounds(a@, open_b@);
        assert(a@.skip(0) =~= a@);
    }
    let priority = match find_from(&a, &open_b, 0) {
        Some(o) => {
            proof {
                lemma_find_first_bounds(a@.skip(o as int), close_b@);
            }
            match find_from(&a, &close_b, o) {
                Some(e) => {
                    proof {
                        assert(e - o == find_first(a@.skip(o as int), close_b@));
                        assert(open_b@.len() == 1) by {
                            reveal_strlit("[");
                        }
                        assert(close_b@.len() == 1) by {
                            reveal_strlit("]");
                        }
                        assert(a@.skip(o as int)[0] == a@[o as int]);
                        assert(a@[o as int] == '[') by {
                            reveal_strlit("[");
                            assert(a@.subrange(o as int, o + 1) == open_b@);
                            assert(a@.subrange(o as int, o + 1)[0] == a@[o as int]);
                        }
                        if e == o {
                            let sk = a@.skip(o as int);
                            assert(find_first(sk, close_b@) == 0);
                            assert(sk.take(1) == close_b@);
                            reveal_strlit("]");
                            assert(sk.take(1)[0] == sk[0]);
                            assert(false);
                        }
                    }
                    string_of(&sub_chars(&a, o + 1, e))
                },
                None => "中".to_owned(),
            }
        },
        None => "中".to_owned(),
    };
    let sep = chars_of(" [");
    proof {
        lemma_find_last_bounds(a@, sep@);
    }
    let content = match rfind(&a, &sep) {
        Some(b) => string_of(&sub_chars(&a, 0, b)),
        None => string_of(&a),
    };
    proof {
        if find_last(a@, sep@) >= 0 {
            assert(a@.subrange(0, find_last(a@, sep@)) =~= a@.take(find_last(a@, sep@)));
        }
    }
    Some(TodoItem { content, status, priority })
}

/// The state an argument item names: `completed`, `in_progress`,
/// `cancelled`, anything else pending.
pub open spec fn status_named(s: Seq<char>) -> TodoStatus {
    if s == "completed"@ {
        TodoStatus::Completed
    } else if s == "in_progress"@ {
        TodoStatus::InProgress
    } else if s == "cancelled"@ {
        TodoStatus::Cancelled
    } else {
        TodoStatus::Pending
    }
}

/// Item `i` of the `todos` array of `todo_write` arguments, with the
/// defaults for what it lacks.
pub open spec fn argument_item(args: Seq<char>, i: usize) -> TodoItemView {
    TodoItemView {
        content: or_else(json_item_str_member(args, "todos"@, i, "content"@), "未知任务"@),
        status: status_named(or_else(json_item_str_member(args, "todos"@, i, "status"@), "pending"@)),
        priority: or_else(json_item_str_member(args, "todos"@, i, "priority"@), "中"@),
    }
}

/// How many items the `todos` array of the arguments holds (none when there
/// is no such array).
pub open spec fn argument_count(args: Seq<char>) -> nat {
    match json_array_member_len(args, "todos"@) {
        Some(n) => n as nat,
        None => 0,
    }
}

fn status_of_name(s: &[char]) -> (r: TodoStatus)
    ensures
        r == status_named(s@),
{
    if chars_eq(s, &chars_of("completed")) {
        TodoStatus::Completed
    } else if chars_eq(s, &chars_of("in_progress")) {
        TodoStatus::InProgress
    } else if chars_eq(s, &chars_of("cancelled")) {
        TodoStatus::Cancelled
    } else {
        TodoStatus::Pending
    }
}

impl TodoList {
    /// The list a `todo_write` call is writing, read from its JSON arguments
    /// while the result has not come yet; it is never shown as all done.
    pub fn from_arguments(arguments: &str) -> (r: TodoList)
        ensures
            r.items@.len() == argument_count(arguments@),
            forall|k: int|
                0 <= k < r.items@.len() ==> item_view(#[trigger] r.items@[k]) == argument_item(
                    arguments@,
                    k as usize,
                ),
            !r.all_done,
    {
        let n = match json_array_len(arguments, "todos") {
            Some(n) => n,
            None => 0,
        };
        let mut items: Vec<TodoItem> = Vec::new();
        let mut i: usize = 0;
        while i < n
            invariant
                i <= n,
                n == argument_count(arguments@),
                items@.len() == i,
                forall|k: int|
                    0 <= k < i ==> item_view(#[trigger] items@[k]) == argument_item(
                        arguments@,
                        k as usize,
                    ),
            decreases n - i,
        {
            let content = or_else_string(
                json_item_str_field(arguments, "todos", i, "content"),
                "未知任务",
            );
            let status = or_else_string(json_item_str_field(arguments, "todos", i, "status"), "pending");
            let priority = or_else_string(json_item_str_field(arguments, "todos", i, "priority"), "中");
            let item = TodoItem {
                content: string_of(&content),
                status: status_of_name(&status),
                priority: string_of(&priority),
            };
            items.push(item);
            i = i + 1;
        }
        TodoList { items, all_done: false }
    }

    /// Reads the to-do list from a `todo_write` result (see `todo_item`).
    pub fn from_result(result: &str) -> (r: TodoList)
        ensures
            r.items@.map_values(|i: TodoItem| item_view(i)) == todo_items(
                lines(result@),
                lines(result@).len() as int,
            ),
            r.all_done == (r.items@.len() > 0 && forall|k: int|
                0 <= k < r.items@.len() ==> settled(#[trigger] r.items@[k].status)),
    {
        let ls = split_lines(&chars_of(result));
        let ghost lv = ls@.map_values(|l: Vec<char>| l@);
        let mut items: Vec<TodoItem> = Vec::new();
        let mut all_settled = true;
        let mut i: usize = 0;
        while i < ls.len()
            invariant
                i <= ls@.len(),
                lv == ls@.map_values(|l: Vec<char>| l@),
                lv == lines(result@),
                items@.map_values(|x: TodoItem| item_view(x)) == todo_items(lv, i as int),
                all_settled == forall|k: int|
                    0 <= k < items@.len() ==> settled(#[trigger] items@[k].status),
            decreases ls@.len() - i,
        {
            proof {
                assert(lv[i as int] == ls@[i as int]@);
            }
            let ghost before = items@;
            match parse_todo_line(&ls[i]) {
                Some(it) => {
                    let s = it.status;
                    let ghost iv = item_view(it);
                    items.push(it);
                    proof {
                        assert(items@.map_values(|x: TodoItem| item_view(x)) =~= before.map_values(
                            |x: TodoItem| item_view(x),
                        ).push(iv));
                        assert forall|k: int| 0 <= k < before.len() implies items@[k] == before[k] by {}
                    }
                    if !(s == TodoStatus::Completed || s == TodoStatus::Cancelled) {
                        all_settled = false;
                        proof {
                            assert(items@[before.len() as int].status == s);
                        }
                    }
                },
                None => {},
            }
            i = i + 1;
        }
        proof {
            assert(lv.len() == ls@.len());
        }
        let all_done = items.len() > 0 && all_settled;
        TodoList { items, all_done }
    }
}

} // verus!

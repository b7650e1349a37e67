//! How the transcript is grouped into the cells the chat history shows:
//! which messages get a cell, which tool calls pair with their results,
//! and which runs of read-only calls fold into one "exploring" cell.
//! A plan names messages by their index in the transcript.

use vstd::prelude::*;

use crate::text::{chars_of, str_eq, trim};
use crate::tool::{category_of, is_readonly_tool, readonly, ToolCategory};
use crate::transcript::{Message, MessageView};

verus! {

/// A read-only call folded into an exploring cell, with its result if the
/// next message is the result of a tool of the same name.
#[derive(Debug, Clone, Copy, PartialEq, Eq, Structural)]
pub struct ExploreEntry {
    pub call: usize,
    pub result: Option<usize>,
}

/// One cell of the history.
#[derive(Debug, Clone, PartialEq, Eq)]
pub enum CellPlan {
    User { index: usize, plan_mode: bool },
    /// An answer (finished or streaming).
    Markdown { index: usize },
    Reasoning { index: usize },
    /// The end of a turn, shown with the plan mode of the last user message.
    Done { index: usize, plan_mode: bool },
    /// A call of the `task` tool, with the result found after its steps.
    TaskTool { call: usize, result: Option<usize> },
    /// A tool call with its result.
    Tool { call: usize, result: Option<usize> },
    /// A tool result whose call is not in front of it.
    LoneResult { index: usize },
    /// A run of read-only calls; `all_done` unless one lacked a result.
    Exploring { items: Vec<ExploreEntry>, all_done: bool },
    Todo { call: usize, result: Option<usize> },
    Step { index: usize },
    Divider { index: usize },
}

/// A cell as plain values.
pub enum CellView {
    User { index: int, plan_mode: bool },
    Markdown { index: int },
    Reasoning { index: int },
    Done { index: int, plan_mode: bool },
    TaskTool { call: int, result: Option<int> },
    Tool { call: int, result: Option<int> },
    LoneResult { index: int },
    Exploring { items: Seq<(int, Option<int>)>, all_done: bool },
    Todo { call: int, result: Option<int> },
    Step { index: int },
    Divider { index: int },
}

pub open spec fn opt_int(o: Option<usize>) -> Option<int> {
    match o {
        Some(x) => Some(x as int),
        None => None,
    }
}

pub open spec fn entries_view(items: Seq<ExploreEntry>) -> Seq<(int, Option<int>)> {
    items.map_values(|e: ExploreEntry| (e.call as int, opt_int(e.result)))
}

impl View for CellPlan {
    type V = CellView;

    open spec fn view(&self) -> CellView {
        match self {
            CellPlan::User { index, plan_mode } => CellView::User {
                index: *index as int,
                plan_mode: *plan_mode,
            },
            CellPlan::Markdown { index } => CellView::Markdown { index: *index as int },
            CellPlan::Reasoning { index } => CellView::Reasoning { index: *index as int },
            CellPlan::Done { index, plan_mode } => CellView::Done {
                index: *index as int,
                plan_mode: *plan_mode,
            },
            CellPlan::TaskTool { call, result } => CellView::TaskTool {
                call: *call as int,
                result: opt_int(*result),
            },
            CellPlan::Tool { call, result } => CellView::Tool {
                call: *call as int,
                result: opt_int(*result),
            },
            CellPlan::LoneResult { index } => CellView::LoneResult { index: *index as int },
            CellPlan::Exploring { items, all_done } => CellView::Exploring {
                items: entries_view(items@),
                all_done: *all_done,
            },
            CellPlan::Todo { call, result } => CellView::Todo {
                call: *call as int,
                result: opt_int(*result),
            },
            CellPlan::Step { index } => CellView::Step { index: *index as int },
            CellPlan::Divider { index } => CellView::Divider { index: *index as int },
        }
    }
}

/// Whether message `k` is the result of a tool named `name`.
pub open spec fn result_of(ms: Seq<MessageView>, k: int, name: Seq<char>) -> bool {
    0 <= k < ms.len() && (ms[k] matches MessageView::ToolResult { name: rn, .. } && rn == name)
}

/// The result that pairs with the call at `i`: the next message, when it is
/// the result of a tool with the same name.
pub open spec fn paired_result(ms: Seq<MessageView>, i: int, name: Seq<char>) -> Option<int> {
    if result_of(ms, i + 1, name) {
        Some(i + 1)
    } else {
        None
    }
}

/// What scanning a run of read-only calls from `j` finds: the entries, whether
/// every call had a result of some tool after it, and where the run ends.
pub struct ExploreScan {
    pub items: Seq<(int, Option<int>)>,
    pub all_done: bool,
    pub end: int,
}

/// The run of read-only calls from `j`: a read-only call takes its paired
/// result (a different message after it counts as missing, a result of
/// another tool does not); results in between are passed over; anything
/// else ends the run.
pub open spec fn explore_scan(ms: Seq<MessageView>, j: int) -> ExploreScan
    decreases ms.len() - j,
{
    if j < 0 || j >= ms.len() {
        ExploreScan { items: Seq::empty(), all_done: true, end: j }
    } else {
        match ms[j] {
            MessageView::ToolCall { name, .. } => if !readonly(name) {
                ExploreScan { items: Seq::empty(), all_done: true, end: j }
            } else {
                let result = paired_result(ms, j, name);
                let missing = !(j + 1 < ms.len() && ms[j + 1] is ToolResult);
                let next = if result is Some {
                    j + 2
                } else {
                    j + 1
                };
                let rest = explore_scan(ms, next);
                ExploreScan {
                    items: seq![(j, result)] + rest.items,
                    all_done: !missing && rest.all_done,
                    end: rest.end,
                }
            },
            MessageView::ToolResult { .. } => explore_scan(ms, j + 1),
            _ => ExploreScan { items: Seq::empty(), all_done: true, end: j },
        }
    }
}

/// Index after the steps of a `task` call at `i`, and the task result
/// found there: sub-agent steps are passed over, a result of `task` is
/// taken, anything else stops.
pub open spec fn task_scan(ms: Seq<MessageView>, j: int) -> (int, Option<int>)
    decreases ms.len() - j,
{
    if j < 0 || j >= ms.len() {
        (j, None)
    } else {
        match ms[j] {
            MessageView::SubagentStep { .. } => task_scan(ms, j + 1),
            MessageView::ToolResult { name, .. } => if name == "task"@ {
                (j + 1, Some(j))
            } else {
                (j, None)
            },
            _ => (j, None),
        }
    }
}

/// Text that holds something besides white space.
pub open spec fn visible(t: Seq<char>) -> bool {
    trim(t).len() > 0
}

/// The cells for the messages from `i` on; `plan` is the plan mode of the
/// last user message before `i`.
pub open spec fn plan_from(ms: Seq<MessageView>, i: int, plan: bool) -> Seq<CellView>
    decreases ms.len() - i,
{
    if i < 0 || i >= ms.len() {
        Seq::empty()
    } else {
        match ms[i] {
            MessageView::User { plan_mode, .. } => seq![CellView::User { index: i, plan_mode }]
                + plan_from(ms, i + 1, plan_mode),
            MessageView::Agent(t) => (if visible(t) {
                seq![CellView::Markdown { index: i }]
            } else {
                Seq::empty()
            }) + plan_from(ms, i + 1, plan),
            MessageView::AgentStreaming(t) => (if visible(t) {
                seq![CellView::Markdown { index: i }]
            } else {
                Seq::empty()
            }) + plan_from(ms, i + 1, plan),
            MessageView::AgentThinking { text, .. } => (if visible(text) {
                seq![CellView::Reasoning { index: i }]
            } else {
                Seq::empty()
            }) + plan_from(ms, i + 1, plan),
            MessageView::AgentDone { .. } => seq![CellView::Done { index: i, plan_mode: plan }]
                + plan_from(ms, i + 1, plan),
            MessageView::ToolCall { name, .. } => if name == "task"@ {
                proof {
                    lemma_task_scan_bounds(ms, i + 1);
                }
                let (next, result) = task_scan(ms, i + 1);
                seq![CellView::TaskTool { call: i, result }] + plan_from(ms, next, plan)
            } else if readonly(name) {
                proof {
                    lemma_explore_scan_bounds(ms, i + 1);
                    lemma_explore_scan_bounds(ms, i + 2);
                }
                let sc = explore_scan(ms, i);
                if sc.items.len() == 1 {
                    let result = paired_result(ms, i, name);
                    let next = if result is Some {
                        i + 2
                    } else {
                        i + 1
                    };
                    seq![CellView::Tool { call: i, result }] + plan_from(ms, next, plan)
                } else {
                    seq![CellView::Exploring { items: sc.items, all_done: sc.all_done }]
                        + plan_from(ms, sc.end, plan)
                }
            } else if category_of(name) == ToolCategory::Todo {
                let result = paired_result(ms, i, name);
                let next = if result is Some {
                    i + 2
                } else {
                    i + 1
                };
                seq![CellView::Todo { call: i, result }] + plan_from(ms, next, plan)
            } else {
                let result = paired_result(ms, i, name);
                let next = if result is Some {
                    i + 2
                } else {
                    i + 1
                };
                seq![CellView::Tool { call: i, result }] + plan_from(ms, next, plan)
            },
            MessageView::ToolResult { .. } => seq![CellView::LoneResult { index: i }] + plan_from(
                ms,
                i + 1,
                plan,
            ),
            MessageView::SubagentStep { .. } => seq![CellView::Step { index: i }] + plan_from(
                ms,
                i + 1,
                plan,
            ),
            MessageView::CompactMarker { .. } => seq![CellView::Divider { index: i }] + plan_from(
                ms,
                i + 1,
                plan,
            ),
            MessageView::CompactStreaming(_) => seq![CellView::Divider { index: i }] + plan_from(
                ms,
                i + 1,
                plan,
            ),
        }
    }
}

pub proof fn lemma_explore_scan_bounds(ms: Seq<MessageView>, j: int)
    requires
        0 <= j,
    ensures
        j <= explore_scan(ms, j).end,
        j <= ms.len() ==> explore_scan(ms, j).end <= ms.len(),
        forall|k: int|
            0 <= k < explore_scan(ms, j).items.len() ==> j <= (
            #[trigger] explore_scan(ms, j).items[k]).0 < ms.len(),
    decreases ms.len() - j,
{
    if j < ms.len() {
        match ms[j] {
            MessageView::ToolCall { name, .. } => {
                if readonly(name) {
                    let result = paired_result(ms, j, name);
                    let next = if result is Some {
                        j + 2
                    } else {
                        j + 1
                    };
                    lemma_explore_scan_bounds(ms, next);
                    let rest = explore_scan(ms, next);
                    assert forall|k: int|
                        0 <= k < explore_scan(ms, j).items.len() implies j <= (
                        #[trigger] explore_scan(ms, j).items[k]).0 < ms.len() by {
                        if k > 0 {
                            assert(explore_scan(ms, j).items[k] == rest.items[k - 1]);
                        }
                    }
                }
            },
            MessageView::ToolResult { .. } => {
                lemma_explore_scan_bounds(ms, j + 1);
            },
            _ => {},
        }
    }
}

pub proof fn lemma_task_scan_bounds(ms: Seq<MessageView>, j: int)
    requires
        0 <= j,
    ensures
        j <= task_scan(ms, j).0,
        j <= ms.len() ==> task_scan(ms, j).0 <= ms.len(),
    decreases ms.len() - j,
{
    if j < ms.len() {
        if ms[j] is SubagentStep {
            lemma_task_scan_bounds(ms, j + 1);
        }
    }
}

// ===== Cells point at the messages they show =====

/// Message `k` exists and is a call of a tool.
pub open spec fn is_call(ms: Seq<MessageView>, k: int) -> bool {
    0 <= k < ms.len() && ms[k] is ToolCall
}

/// The name of the tool called at `k`.
pub open spec fn call_name_at(ms: Seq<MessageView>, k: int) -> Seq<char> {
    ms[k]->ToolCall_name
}

/// A call at `c`, with, when there is one, a result at `r` of the same tool.
pub open spec fn call_with_result(ms: Seq<MessageView>, c: int, r: Option<int>) -> bool {
    &&& is_call(ms, c)
    &&& (r matches Some(k) ==> result_of(ms, k, call_name_at(ms, c)))
}

/// Whether a cell shows messages of the kinds it is made for.
pub open spec fn cell_fits(ms: Seq<MessageView>, c: CellView) -> bool {
    match c {
        CellView::User { index, .. } => 0 <= index < ms.len() && ms[index] is User,
        CellView::Markdown { index } => 0 <= index < ms.len() && (ms[index] is Agent
            || ms[index] is AgentStreaming),
        CellView::Reasoning { index } => 0 <= index < ms.len() && ms[index] is AgentThinking,
        CellView::Done { index, .. } => 0 <= index < ms.len() && ms[index] is AgentDone,
        CellView::TaskTool { call, result } => call_with_result(ms, call, result) && call_name_at(
            ms,
            call,
        ) == "task"@,
        CellView::Tool { call, result } => call_with_result(ms, call, result),
        CellView::LoneResult { index } => 0 <= index < ms.len() && ms[index] is ToolResult,
        CellView::Exploring { items, .. } => forall|k: int|
            0 <= k < items.len() ==> call_with_result(ms, (#[trigger] items[k]).0, items[k].1)
                && readonly(call_name_at(ms, items[k].0)),
        CellView::Todo { call, result } => call_with_result(ms, call, result),
        CellView::Step { index } => 0 <= index < ms.len() && ms[index] is SubagentStep,
        CellView::Divider { index } => 0 <= index < ms.len() && (ms[index] is CompactMarker
            || ms[index] is CompactStreaming),
    }
}

proof fn lemma_task_scan_result(ms: Seq<MessageView>, j: int)
    requires
        0 <= j,
    ensures
        task_scan(ms, j).1 matches Some(k) ==> result_of(ms, k, "task"@),
    decreases ms.len() - j,
{
    if j < ms.len() && ms[j] is SubagentStep {
        lemma_task_scan_result(ms, j + 1);
    }
}

proof fn lemma_explore_scan_items(ms: Seq<MessageView>, j: int)
    requires
        0 <= j,
    ensures
        forall|k: int|
            0 <= k < explore_scan(ms, j).items.len() ==> call_with_result(
                ms,
                (#[trigger] explore_scan(ms, j).items[k]).0,
                explore_scan(ms, j).items[k].1,
            ) && readonly(call_name_at(ms, explore_scan(ms, j).items[k].0)),
    decreases ms.len() - j,
{
    if j < ms.len() {
        match ms[j] {
            MessageView::ToolCall { name, .. } => {
                if readonly(name) {
                    let result = paired_result(ms, j, name);
                    let next = if result is Some {
                        j + 2
                    } else {
                        j + 1
                    };
                    lemma_explore_scan_items(ms, next);
                    let rest = explore_scan(ms, next);
                    assert(explore_scan(ms, j).items == seq![(j, result)] + rest.items);
                    assert forall|k: int| 0 <= k < explore_scan(ms, j).items.len() implies call_with_result(
                        ms,
                        (#[trigger] explore_scan(ms, j).items[k]).0,
                        explore_scan(ms, j).items[k].1,
                    ) && readonly(call_name_at(ms, explore_scan(ms, j).items[k].0)) by {
                        if k > 0 {
                            assert(explore_scan(ms, j).items[k] == rest.items[k - 1]);
                        } else {
                            assert(explore_scan(ms, j).items[0] == (j, result));
                            assert(call_name_at(ms, j) == name);
                        }
                    }
                }
            },
            MessageView::ToolResult { .. } => {
                lemma_explore_scan_items(ms, j + 1);
                assert(explore_scan(ms, j) == explore_scan(ms, j + 1));
            },
            _ => {
                assert(explore_scan(ms, j).items.len() == 0);
            },
        }
    }
}

/// Every cell of the history shows messages of the kinds it is made for: a
/// user cell a user message, a tool cell a tool call and (when it has one)
/// a result of the same tool, an exploring cell read-only calls with their
/// results, and so on; no cell points past the transcript.
pub proof fn law_cells_fit_messages(ms: Seq<MessageView>, i: int, plan: bool)
    requires
        0 <= i,
    ensures
        forall|k: int|
            0 <= k < plan_from(ms, i, plan).len() ==> cell_fits(ms, #[trigger] plan_from(ms, i, plan)[k]),
    decreases ms.len() - i,
{
    if i < ms.len() {
        let cells = plan_from(ms, i, plan);
        match ms[i] {
            MessageView::User { plan_mode, .. } => {
                law_cells_fit_messages(ms, i + 1, plan_mode);
                let rest = plan_from(ms, i + 1, plan_mode);
                assert forall|k: int| 0 <= k < cells.len() implies cell_fits(ms, #[trigger] cells[k]) by {
                    if k > 0 {
                        assert(cells[k] == rest[k - 1]);
                    }
                }
            },
            MessageView::ToolCall { name, .. } => {
                if name == "task"@ {
                    lemma_task_scan_bounds(ms, i + 1);
                    lemma_task_scan_result(ms, i + 1);
                    let (next, result) = task_scan(ms, i + 1);
                    law_cells_fit_messages(ms, next, plan);
                    let rest = plan_from(ms, next, plan);
                    assert forall|k: int| 0 <= k < cells.len() implies cell_fits(ms, #[trigger] cells[k]) by {
                        if k > 0 {
                            assert(cells[k] == rest[k - 1]);
                        }
                    }
                } else if readonly(name) {
                    lemma_explore_scan_bounds(ms, i + 1);
                    lemma_explore_scan_bounds(ms, i + 2);
                    lemma_explore_scan_bounds(ms, i);
                    lemma_explore_scan_items(ms, i);
                    let sc = explore_scan(ms, i);
                    if sc.items.len() == 1 {
                        let result = paired_result(ms, i, name);
                        let next = if result is Some {
                            i + 2
                        } else {
                            i + 1
                        };
                        law_cells_fit_messages(ms, next, plan);
                        let rest = plan_from(ms, next, plan);
                        assert forall|k: int| 0 <= k < cells.len() implies cell_fits(ms, #[trigger] cells[k]) by {
                            if k > 0 {
                                assert(cells[k] == rest[k - 1]);
                            }
                        }
                    } else {
                        law_cells_fit_messages(ms, sc.end, plan);
                        let rest = plan_from(ms, sc.end, plan);
                        assert forall|k: int| 0 <= k < cells.len() implies cell_fits(ms, #[trigger] cells[k]) by {
                            if k > 0 {
                                assert(cells[k] == rest[k - 1]);
                            }
                        }
                    }
                } else {
                    let result = paired_result(ms, i, name);
                    let next = if result is Some {
                        i + 2
                    } else {
                        i + 1
                    };
                    law_cells_fit_messages(ms, next, plan);
                    let rest = plan_from(ms, next, plan);
                    assert forall|k: int| 0 <= k < cells.len() implies cell_fits(ms, #[trigger] cells[k]) by {
                        if k > 0 {
                            assert(cells[k] == rest[k - 1]);
                        }
                    }
                }
            },
            _ => {
                law_cells_fit_messages(ms, i + 1, plan);
                let rest = plan_from(ms, i + 1, plan);
                assert forall|k: int| 0 <= k < cells.len() implies cell_fits(ms, #[trigger] cells[k]) by {
                    if cells.len() == rest.len() + 1 && k > 0 {
                        assert(cells[k] == rest[k - 1]);
                    } else if cells.len() == rest.len() {
                        assert(cells[k] == rest[k]);
                    }
                }
            },
        }
    }
}

fn is_visible(t: &str) -> (b: bool)
    ensures
        b == visible(t@),
{
    crate::text::trim_chars(&chars_of(t)).len() > 0
}

/// Whether message `k` is the result of a tool named `name`.
fn is_result_of(ms: &[Message], k: usize, name: &str) -> (b: bool)
    ensures
        b == result_of(ms@.map_values(|m: Message| m@), k as int, name@),
{
    if k >= ms.len() {
        return false;
    }
    match &ms[k] {
        Message::ToolResult { name: rn, .. } => str_eq(rn.as_str(), name),
        _ => false,
    }
}

/// The cells for `messages` (see `plan_from`).
pub fn plan_cells(messages: &[Message]) -> (r: Vec<CellPlan>)
    ensures
        r@.map_values(|c: CellPlan| c@) == plan_from(messages@.map_values(|m: Message| m@), 0, false),
{
    let ghost ms = messages@.map_values(|m: Message| m@);
    let n = messages.len();
    let mut cells: Vec<CellPlan> = Vec::new();
    let mut i: usize = 0;
    let mut last_plan_mode = false;
    while i < n
        invariant
            n == ms.len(),
            ms == messages@.map_values(|m: Message| m@),
            i <= n,
            cells@.map_values(|c: CellPlan| c@) + plan_from(ms, i as int, last_plan_mode)
                == plan_from(ms, 0, false),
        decreases n - i,
    {
        let ghost before = cells@.map_values(|c: CellPlan| c@);
        let ghost i0 = i as int;
        let ghost p0 = last_plan_mode;
        assert(ms[i0] == messages@[i0]@);
        let (cell, next, plan): (Option<CellPlan>, usize, bool) = match &messages[i] {
            Message::User { plan_mode, .. } => (
                Some(CellPlan::User { index: i, plan_mode: *plan_mode }),
                i + 1,
                *plan_mode,
            ),
            Message::Agent(t) => (
                if is_visible(t.as_str()) {
                    Some(CellPlan::Markdown { index: i })
                } else {
                    None
                },
                i + 1,
                last_plan_mode,
            ),
            Message::AgentStreaming(t) => (
                if is_visible(t.as_str()) {
                    Some(CellPlan::Markdown { index: i })
                } else {
                    None
                },
                i + 1,
                last_plan_mode,
            ),
            Message::AgentThinking { text, .. } => (
                if is_visible(text.as_str()) {
                    Some(CellPlan::Reasoning { index: i })
                } else {
                    None
                },
                i + 1,
                last_plan_mode,
            ),
            Message::AgentDone { .. } => (
                Some(CellPlan::Done { index: i, plan_mode: last_plan_mode }),
                i + 1,
                last_plan_mode,
            ),
            Message::ToolCall { name, .. } => {
                if str_eq(name.as_str(), "task") {
                    let mut j = i + 1;
                    let mut result: Option<usize> = None;
                    proof {
                        lemma_task_scan_bounds(ms, i + 1);
                    }
                    let mut scanning = true;
                    while scanning && j < n
                        invariant
                            n == ms.len(),
                            ms == messages@.map_values(|m: Message| m@),
                            i < j <= n,
                            scanning ==> (result is None && task_scan(ms, i + 1) == task_scan(
                                ms,
                                j as int,
                            )),
                            !scanning ==> (j as int, opt_int(result)) == task_scan(ms, i + 1),
                        decreases n - j + (if scanning {
                            1int
                        } else {
                            0int
                        }),
                    {
                        assert(ms[j as int] == messages@[j as int]@);
                        match &messages[j] {
                            Message::SubagentStep { .. } => {
                                j = j + 1;
                            },
                            Message::ToolResult { name: rn, .. } => {
                                if str_eq(rn.as_str(), "task") {
                                    result = Some(j);
                                    j = j + 1;
                                }
                                scanning = false;
                            },
                            _ => {
                                scanning = false;
                            },
                        }
                    }
                    (Some(CellPlan::TaskTool { call: i, result }), j, last_plan_mode)
                } else if is_readonly_tool(name.as_str()) {
                    let mut items: Vec<ExploreEntry> = Vec::new();
                    let mut all_done = true;
                    let mut j = i;
                    let mut scanning = true;
                    proof {
                        lemma_explore_scan_bounds(ms, i as int);
                    }
                    while scanning && j < n
                        invariant
                            n == ms.len(),
                            ms == messages@.map_values(|m: Message| m@),
                            i <= j <= n,
                            scanning ==> entries_view(items@) + explore_scan(ms, j as int).items
                                == explore_scan(ms, i as int).items,
                            scanning ==> (all_done && explore_scan(ms, j as int).all_done)
                                == explore_scan(ms, i as int).all_done,
                            scanning ==> explore_scan(ms, j as int).end == explore_scan(
                                ms,
                                i as int,
                            ).end,
                            !scanning ==> entries_view(items@) == explore_scan(ms, i as int).items,
                            !scanning ==> all_done == explore_scan(ms, i as int).all_done,
                            !scanning ==> j == explore_scan(ms, i as int).end,
                            j == i ==> items@.len() == 0,
                        decreases n - j + (if scanning {
                            1int
                        } else {
                            0int
                        }),
                    {
                        let ghost jj = j as int;
                        let ghost it0 = entries_view(items@);
                        assert(ms[jj] == messages@[jj]@);
                        match &messages[j] {
                            Message::ToolCall { name: tn, .. } => {
                                if !is_readonly_tool(tn.as_str()) {
                                    scanning = false;
                                    assert(it0 + Seq::<(int, Option<int>)>::empty() =~= it0);
                                } else {
                                    let has_result = is_result_of(messages, j + 1, tn.as_str());
                                    let next_is_result = j + 1 < n && match &messages[j + 1] {
                                        Message::ToolResult { .. } => true,
                                        _ => false,
                                    };
                                    proof {
                                        if j + 1 < n {
                                            assert(ms[jj + 1] == messages@[jj + 1]@);
                                        }
                                    }
                                    if !next_is_result {
                                        all_done = false;
                                    }
                                    let e = ExploreEntry {
                                        call: j,
                                        result: if has_result {
                                            Some(j + 1)
                                        } else {
                                            None
                                        },
                                    };
                                    items.push(e);
                                    proof {
                                        let rest = explore_scan(ms, if has_result {
                                            jj + 2
                                        } else {
                                            jj + 1
                                        });
                                        assert(entries_view(items@) =~= it0.push(
                                            (jj, opt_int(e.result)),
                                        ));
                                        assert(it0.push((jj, opt_int(e.result))) + rest.items
                                            =~= it0 + (seq![(jj, opt_int(e.result))]
                                            + rest.items));
                                    }
                                    j = if has_result {
                                        j + 2
                                    } else {
                                        j + 1
                                    };
                                    if j > n {
                                        j = n;
                                    }
                                }
                            },
                            Message::ToolResult { .. } => {
                                j = j + 1;
                            },
                            _ => {
                                scanning = false;
                                assert(it0 + Seq::<(int, Option<int>)>::empty() =~= it0);
                            },
                        }
                    }
                    proof {
                        if scanning {
                            assert(entries_view(items@) + Seq::<(int, Option<int>)>::empty()
                                =~= entries_view(items@));
                        }
                    }
                    if items.len() == 1 {
                        let has_result = is_result_of(messages, i + 1, name.as_str());
                        (
                            Some(
                                CellPlan::Tool {
                                    call: i,
                                    result: if has_result {
                                        Some(i + 1)
                                    } else {
                                        None
                                    },
                                },
                            ),
                            if has_result {
                                i + 2
                            } else {
                                i + 1
                            },
                            last_plan_mode,
                        )
                    } else {
                        proof {
                            assert(entries_view(items@) == explore_scan(ms, i as int).items);
                        }
                        (Some(CellPlan::Exploring { items, all_done }), j, last_plan_mode)
                    }
                } else {
                    let has_result = is_result_of(messages, i + 1, name.as_str());
                    let result = if has_result {
                        Some(i + 1)
                    } else {
                        None
                    };
                    let next = if has_result {
                        i + 2
                    } else {
                        i + 1
                    };
                    if ToolCategory::from_name(name.as_str()) == ToolCategory::Todo {
                        (Some(CellPlan::Todo { call: i, result }), next, last_plan_mode)
                    } else {
                        (Some(CellPlan::Tool { call: i, result }), next, last_plan_mode)
                    }
                }
            },
            Message::ToolResult { .. } => (
                Some(CellPlan::LoneResult { index: i }),
                i + 1,
                last_plan_mode,
            ),
            Message::SubagentStep { .. } => (
                Some(CellPlan::Step { index: i }),
                i + 1,
                last_plan_mode,
            ),
            Message::CompactMarker { .. } => (
                Some(CellPlan::Divider { index: i }),
                i + 1,
                last_plan_mode,
            ),
            Message::CompactStreaming(_) => (
                Some(CellPlan::Divider { index: i }),
                i + 1,
                last_plan_mode,
            ),
        };
        match cell {
            Some(c) => {
                let ghost cv = c@;
                cells.push(c);
                proof {
                    assert(cells@.map_values(|c: CellPlan| c@) =~= before.push(cv));
                    assert(before.push(cv) + plan_from(ms, next as int, plan) =~= before + (seq![cv]
                        + plan_from(ms, next as int, plan)));
                }
            },
            None => {
                proof {
                    assert(before + plan_from(ms, next as int, plan) =~= before + (Seq::empty()
                        + plan_from(ms, next as int, plan)));
                }
            },
        }
        i = if next > n {
            n
        } else {
            next
        };
        last_plan_mode = plan;
    }
    proof {
        assert(cells@.map_values(|c: CellPlan| c@) + Seq::<CellView>::empty() =~= cells@.map_values(
            |c: CellPlan| c@,
        ));
    }
    cells
}

} // verus!

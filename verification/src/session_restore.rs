//! Rebuilding the transcript of a saved session from its stored messages:
//! user turns, reasoning, answers, tool calls paired with their results by
//! call id, turn endings, and where the conversation was compacted.

use vstd::prelude::*;

use crate::json_args::{
    json_at_array_len, json_at_present, json_at_str, json_at_text, json_bool_field,
    json_bool_member, json_pointer_array_len, json_pointer_present, json_pointer_str,
    json_pointer_text, json_str_field, json_str_member, json_u64_field, json_u64_member, opt_view,
    or_else, or_else_string,
};
use crate::text::{
    chars_eq, chars_of, decimal, decimal_chars, extend_chars, string_of, trim, trim_chars,
};
use crate::transcript::{Message, MessageView, TaskStatus};

verus! {

/// Who a stored message is from.
#[derive(Debug, Clone, Copy, PartialEq, Eq, Structural)]
pub enum MessageRole {
    System,
    User,
    Assistant,
    Tool,
}

/// A message as the session store keeps it.
#[derive(Debug, Clone)]
pub struct StoredMessage {
    pub role: MessageRole,
    pub content: String,
    /// The reasoning before an answer.
    pub reasoning_content: Option<String>,
    /// How long the reasoning took, in milliseconds.
    pub think_ms: Option<u64>,
    /// The tool calls of an answer, as the JSON array the model sent.
    pub tool_calls: Option<String>,
    /// For a tool result, the call it answers.
    pub tool_call_id: Option<String>,
    /// JSON facts about the turn (plan mode, duration, model, status) or,
    /// for a tool result, its display data.
    pub runtime_meta: Option<String>,
    /// Whether the message was folded into the compaction summary.
    pub compacted: bool,
}

// ===== Tool calls in the JSON the model sent =====

/// The JSON pointer to item `i` of the top-level array.
pub open spec fn item_ptr(i: nat) -> Seq<char> {
    seq!['/'] + decimal(i)
}

/// How many tool calls the JSON array holds (none when it is no array).
pub open spec fn call_count(tc: Seq<char>) -> nat {
    match json_pointer_array_len(tc, Seq::empty()) {
        Some(n) => n as nat,
        None => 0,
    }
}

/// Where call `i` keeps its function: under `function`, else under
/// `custom_tool`.
pub open spec fn function_ptr(tc: Seq<char>, i: nat) -> Option<Seq<char>> {
    let f = item_ptr(i) + "/function"@;
    let c = item_ptr(i) + "/custom_tool"@;
    if json_pointer_present(tc, f) {
        Some(f)
    } else if json_pointer_present(tc, c) {
        Some(c)
    } else {
        None
    }
}

/// The id of call `i` (empty without one).
pub open spec fn call_id(tc: Seq<char>, i: nat) -> Seq<char> {
    or_else(json_pointer_str(tc, item_ptr(i) + "/id"@), ""@)
}

/// The tool name of call `i` (empty without one).
pub open spec fn call_name(tc: Seq<char>, i: nat) -> Seq<char> {
    match function_ptr(tc, i) {
        Some(f) => or_else(json_pointer_str(tc, f + "/name"@), ""@),
        None => ""@,
    }
}

/// The arguments of call `i`: its `arguments`, else its `input`, as text.
pub open spec fn call_arguments(tc: Seq<char>, i: nat) -> Seq<char> {
    match function_ptr(tc, i) {
        Some(f) => if json_pointer_present(tc, f + "/arguments"@) {
            or_else(json_pointer_text(tc, f + "/arguments"@), ""@)
        } else {
            or_else(json_pointer_text(tc, f + "/input"@), ""@)
        },
        None => ""@,
    }
}

// ===== Tool results by call id =====

/// The first tool message, from `k` on, that answers call `id`.
pub open spec fn first_result(stored: Seq<StoredMessage>, id: Seq<char>, k: int) -> Option<int>
    decreases stored.len() - k,
{
    if k < 0 || k >= stored.len() {
        None
    } else if stored[k].role == MessageRole::Tool && opt_view(stored[k].tool_call_id) == Some(id) {
        Some(k)
    } else {
        first_result(stored, id, k + 1)
    }
}

proof fn lemma_first_result(stored: Seq<StoredMessage>, id: Seq<char>, j: int)
    ensures
        first_result(stored, id, j) matches Some(k) ==> {
            &&& j <= k < stored.len()
            &&& stored[k].role == MessageRole::Tool
            &&& opt_view(stored[k].tool_call_id) == Some(id)
        },
    decreases stored.len() - j,
{
    if !(j < 0 || j >= stored.len()) {
        lemma_first_result(stored, id, j + 1);
    }
}

/// The transcript being rebuilt, the call ids whose result was shown, and
/// whether the compaction marker is in.
pub struct RestoreState {
    pub shown: Seq<MessageView>,
    pub used: Seq<Seq<char>>,
    pub marked: bool,
}

/// The result entry of tool message `k`.
pub open spec fn result_entry(stored: Seq<StoredMessage>, k: int, name: Seq<char>) -> MessageView {
    MessageView::ToolResult {
        name,
        result: stored[k].content@,
        display: opt_view(stored[k].runtime_meta),
    }
}

/// Call `i` of `tc` after the entries `shown`, with the result ids `used`:
/// shown when it names a tool, followed by its result when one answers its
/// id and was not shown yet.
pub open spec fn call_step(
    stored: Seq<StoredMessage>,
    tc: Seq<char>,
    i: nat,
    shown: Seq<MessageView>,
    used: Seq<Seq<char>>,
) -> (Seq<MessageView>, Seq<Seq<char>>) {
    let name = call_name(tc, i);
    if name.len() == 0 {
        (shown, used)
    } else {
        let s1 = shown.push(MessageView::ToolCall { name, arguments: call_arguments(tc, i) });
        let id = call_id(tc, i);
        match first_result(stored, id, 0) {
            Some(k) => if used.contains(id) {
                (s1, used)
            } else {
                (s1.push(result_entry(stored, k, name)), used.push(id))
            },
            None => (s1, used),
        }
    }
}

/// The first `n` calls of `tc`, in order.
pub open spec fn calls_upto(
    stored: Seq<StoredMessage>,
    tc: Seq<char>,
    n: nat,
    shown: Seq<MessageView>,
    used: Seq<Seq<char>>,
) -> (Seq<MessageView>, Seq<Seq<char>>)
    decreases n,
{
    if n == 0 {
        (shown, used)
    } else {
        let p = calls_upto(stored, tc, (n - 1) as nat, shown, used);
        call_step(stored, tc, (n - 1) as nat, p.0, p.1)
    }
}

// ===== Messages =====

/// The word a turn's status is saved under in its metadata.
pub open spec fn status_word(s: TaskStatus) -> Seq<char> {
    match s {
        TaskStatus::Completed => "completed"@,
        TaskStatus::Interrupted => "interrupted"@,
        TaskStatus::Error => "error"@,
    }
}

/// The word a turn's status is saved under (see `status_word`).
pub fn status_word_of(s: TaskStatus) -> (r: &'static str)
    ensures
        r@ == status_word(s),
{
    match s {
        TaskStatus::Completed => "completed",
        TaskStatus::Interrupted => "interrupted",
        TaskStatus::Error => "error",
    }
}

/// A turn's status reads back as the status it was saved with; a turn saved
/// without one, or with a word that no status is saved under but
/// `completed`, reads as completed.
pub proof fn law_status_reads_back(s: TaskStatus, other: Seq<char>)
    ensures
        status_named(Some(status_word(s))) == s,
        status_named(None) == TaskStatus::Completed,
        other != status_word(TaskStatus::Interrupted) && other != status_word(TaskStatus::Error)
            ==> status_named(Some(other)) == TaskStatus::Completed,
{
    reveal_strlit("completed");
    reveal_strlit("interrupted");
    reveal_strlit("error");
    assert("completed"@[0] != "interrupted"@[0]);
    assert("completed"@[0] != "error"@[0]);
    assert("error"@[0] != "interrupted"@[0]);
}

/// The status a turn's metadata names: `interrupted`, `error`, anything
/// else (or nothing) completed.
pub open spec fn status_named(s: Option<Seq<char>>) -> TaskStatus {
    match s {
        Some(t) => if t == "interrupted"@ {
            TaskStatus::Interrupted
        } else if t == "error"@ {
            TaskStatus::Error
        } else {
            TaskStatus::Completed
        },
        None => TaskStatus::Completed,
    }
}

/// An answer: its reasoning (unless blank), its text (unless empty), its
/// tool calls, and the turn's end when the metadata gives its duration.
pub open spec fn assistant_step(stored: Seq<StoredMessage>, m: StoredMessage, st: RestoreState) -> RestoreState {
    let s1 = match m.reasoning_content {
        Some(r) => if trim(r@).len() > 0 {
            st.shown.push(
                MessageView::AgentThinking { text: r@, think_ms: m.think_ms, thinking_started_at: None },
            )
        } else {
            st.shown
        },
        None => st.shown,
    };
    let s2 = if m.content@.len() > 0 {
        s1.push(MessageView::Agent(m.content@))
    } else {
        s1
    };
    let st3 = match m.tool_calls {
        Some(tc) => {
            let p = calls_upto(stored, tc@, call_count(tc@), s2, st.used);
            RestoreState { shown: p.0, used: p.1, marked: st.marked }
        },
        None => RestoreState { shown: s2, ..st },
    };
    match m.runtime_meta {
        Some(meta) => match json_u64_member(meta@, "total_ms"@) {
            Some(t) => RestoreState {
                shown: st3.shown.push(
                    MessageView::AgentDone {
                        total_ms: t,
                        model: or_else(json_str_member(meta@, "model"@), ""@),
                        status: status_named(json_str_member(meta@, "status"@)),
                    },
                ),
                ..st3
            },
            None => st3,
        },
        None => st3,
    }
}

/// Whether the compaction marker goes before message `idx`: the first
/// message kept after compacted ones, when there is a summary.
pub open spec fn marker_before(stored: Seq<StoredMessage>, summary: Option<Seq<char>>, idx: int, st: RestoreState) -> bool {
    !st.marked && summary is Some && idx > 0 && stored[idx - 1].compacted && !stored[idx].compacted
}

/// Message `idx`, after the compaction marker when it goes before it.
pub open spec fn message_step(stored: Seq<StoredMessage>, summary: Option<Seq<char>>, idx: int, st: RestoreState) -> RestoreState {
    let st1 = if marker_before(stored, summary, idx, st) {
        RestoreState {
            shown: st.shown.push(
                MessageView::CompactMarker { summary: summary.unwrap(), compacted_count: idx as usize },
            ),
            marked: true,
            ..st
        }
    } else {
        st
    };
    let m = stored[idx];
    match m.role {
        MessageRole::User => RestoreState {
            shown: st1.shown.push(
                MessageView::User {
                    text: m.content@,
                    plan_mode: match m.runtime_meta {
                        Some(meta) => json_bool_member(meta@, "plan_mode"@) == Some(true),
                        None => false,
                    },
                },
            ),
            ..st1
        },
        MessageRole::Assistant => assistant_step(stored, m, st1),
        _ => st1,
    }
}

pub open spec fn start_state() -> RestoreState {
    RestoreState { shown: Seq::empty(), used: Seq::empty(), marked: false }
}

/// The first `n` stored messages, in order.
pub open spec fn restore_upto(stored: Seq<StoredMessage>, summary: Option<Seq<char>>, n: int) -> RestoreState
    decreases n,
{
    if n <= 0 {
        start_state()
    } else {
        message_step(stored, summary, n - 1, restore_upto(stored, summary, n - 1))
    }
}

pub open spec fn all_compacted(stored: Seq<StoredMessage>) -> bool {
    forall|k: int| 0 <= k < stored.len() ==> #[trigger] stored[k].compacted
}

/// Whether tool message `k` is a result no call showed: the first for its
/// call id, which is not among the ids used.
pub open spec fn leftover(stored: Seq<StoredMessage>, used: Seq<Seq<char>>, k: int) -> bool {
    &&& stored[k].role == MessageRole::Tool
    &&& stored[k].tool_call_id is Some
    &&& first_result(stored, opt_view(stored[k].tool_call_id).unwrap(), 0) == Some(k)
    &&& !used.contains(opt_view(stored[k].tool_call_id).unwrap())
}

/// The results no call showed, among the first `n` messages, in order.
pub open spec fn leftovers_upto(stored: Seq<StoredMessage>, used: Seq<Seq<char>>, n: int) -> Seq<MessageView>
    decreases n,
{
    if n <= 0 {
        Seq::empty()
    } else {
        let rest = leftovers_upto(stored, used, n - 1);
        if leftover(stored, used, n - 1) {
            rest.push(result_entry(stored, n - 1, ""@))
        } else {
            rest
        }
    }
}

/// The transcript of a saved session: every message in turn; the
/// compaction marker at the end when every message was compacted; then the
/// results that no call showed (in the order they were stored).
pub open spec fn restored(stored: Seq<StoredMessage>, summary: Option<Seq<char>>) -> Seq<MessageView> {
    let st = restore_upto(stored, summary, stored.len() as int);
    let shown = if !st.marked && summary is Some && stored.len() > 0 && all_compacted(stored) {
        st.shown.push(
            MessageView::CompactMarker { summary: summary.unwrap(), compacted_count: stored.len() as usize },
        )
    } else {
        st.shown
    };
    shown + leftovers_upto(stored, st.used, stored.len() as int)
}

pub open spec fn views(v: Seq<Message>) -> Seq<MessageView> {
    v.map_values(|m: Message| m@)
}

// ===== Each stored result is shown once =====

/// The call ids paired with a result so far: distinct, each with a stored
/// result.
pub open spec fn pairing_ok(stored: Seq<StoredMessage>, used: Seq<Seq<char>>) -> bool {
    &&& used.no_duplicates()
    &&& forall|j: int| 0 <= j < used.len() ==> (#[trigger] first_result(stored, used[j], 0)) is Some
}

proof fn lemma_calls_keep_pairing(
    stored: Seq<StoredMessage>,
    tc: Seq<char>,
    n: nat,
    shown: Seq<MessageView>,
    used: Seq<Seq<char>>,
)
    requires
        pairing_ok(stored, used),
    ensures
        pairing_ok(stored, calls_upto(stored, tc, n, shown, used).1),
    decreases n,
{
    if n > 0 {
        lemma_calls_keep_pairing(stored, tc, (n - 1) as nat, shown, used);
        let p = calls_upto(stored, tc, (n - 1) as nat, shown, used);
        let u = p.1;
        let id = call_id(tc, (n - 1) as nat);
        let q = call_step(stored, tc, (n - 1) as nat, p.0, u);
        if q.1 != u {
            assert(q.1 == u.push(id));
            assert forall|a: int, b: int| 0 <= a < b < q.1.len() implies q.1[a] != q.1[b] by {
                if b == u.len() {
                    assert(u.contains(u[a]));
                }
            }
            assert forall|j: int| 0 <= j < q.1.len() implies (#[trigger] first_result(
                stored,
                q.1[j],
                0,
            )) is Some by {
                if j < u.len() {
                    assert(q.1[j] == u[j]);
                }
            }
        }
    }
}

proof fn lemma_message_keeps_pairing(
    stored: Seq<StoredMessage>,
    summary: Option<Seq<char>>,
    idx: int,
    st: RestoreState,
)
    requires
        pairing_ok(stored, st.used),
    ensures
        pairing_ok(stored, message_step(stored, summary, idx, st).used),
{
    let m = stored[idx];
    if m.role == MessageRole::Assistant {
        match m.tool_calls {
            Some(tc) => {
                let s0 = if marker_before(stored, summary, idx, st) {
                    st.shown.push(
                        MessageView::CompactMarker {
                            summary: summary.unwrap(),
                            compacted_count: idx as usize,
                        },
                    )
                } else {
                    st.shown
                };
                let s1 = match m.reasoning_content {
                    Some(r) => if trim(r@).len() > 0 {
                        s0.push(
                            MessageView::AgentThinking {
                                text: r@,
                                think_ms: m.think_ms,
                                thinking_started_at: None,
                            },
                        )
                    } else {
                        s0
                    },
                    None => s0,
                };
                let s2 = if m.content@.len() > 0 {
                    s1.push(MessageView::Agent(m.content@))
                } else {
                    s1
                };
                lemma_calls_keep_pairing(stored, tc@, call_count(tc@), s2, st.used);
            },
            None => {},
        }
    }
}

/// No stored tool result goes with two calls: while the first `n` stored
/// messages are rebuilt, the call ids paired with a result are distinct and
/// each has a stored result.
pub proof fn law_results_paired_once(stored: Seq<StoredMessage>, summary: Option<Seq<char>>, n: int)
    requires
        0 <= n <= stored.len(),
    ensures
        pairing_ok(stored, restore_upto(stored, summary, n).used),
    decreases n,
{
    if n > 0 {
        law_results_paired_once(stored, summary, n - 1);
        lemma_message_keeps_pairing(stored, summary, n - 1, restore_upto(stored, summary, n - 1));
    }
}

// ===== The exec side =====

fn str_view_eq(a: &str, b: &[char]) -> (r: bool)
    ensures
        r == (a@ == b@),
{
    chars_eq(&chars_of(a), b)
}

/// The index of the first tool message answering call `id`.
fn find_result(stored: &[StoredMessage], id: &[char]) -> (r: Option<usize>)
    ensures
        match r {
            Some(k) => first_result(stored@, id@, 0) == Some(k as int),
            None => first_result(stored@, id@, 0) is None,
        },
{
    let mut k: usize = 0;
    while k < stored.len()
        invariant
            k <= stored@.len(),
            first_result(stored@, id@, 0) == first_result(stored@, id@, k as int),
        decreases stored@.len() - k,
    {
        if stored[k].role == MessageRole::Tool {
            match &stored[k].tool_call_id {
                Some(t) => {
                    if str_view_eq(t.as_str(), id) {
                        return Some(k);
                    }
                },
                None => {},
            }
        }
        k = k + 1;
    }
    None
}

fn used_contains(used: &Vec<Vec<char>>, id: &[char]) -> (r: bool)
    ensures
        r == used@.map_values(|u: Vec<char>| u@).contains(id@),
{
    let ghost uv = used@.map_values(|u: Vec<char>| u@);
    let mut i: usize = 0;
    while i < used.len()
        invariant
            i <= used@.len(),
            uv == used@.map_values(|u: Vec<char>| u@),
            forall|j: int| 0 <= j < i ==> uv[j] != id@,
        decreases used@.len() - i,
    {
        if chars_eq(&used[i], id) {
            assert(uv[i as int] == id@);
            return true;
        }
        i = i + 1;
    }
    false
}

fn item_pointer(i: usize, rest: &str) -> (r: String)
    ensures
        r@ == item_ptr(i as nat) + rest@,
{
    let mut v: Vec<char> = Vec::new();
    v.push('/');
    let ghost v0 = v@;
    extend_chars(&mut v, &decimal_chars(i));
    extend_chars(&mut v, &chars_of(rest));
    assert(v0 =~= seq!['/']);
    string_of(&v)
}

fn suffixed(p: &str, rest: &str) -> (r: String)
    ensures
        r@ == p@ + rest@,
{
    let mut v = chars_of(p);
    extend_chars(&mut v, &chars_of(rest));
    string_of(&v)
}

fn copy_string(s: &String) -> (r: String)
    ensures
        r@ == s@,
{
    string_of(&chars_of(s.as_str()))
}

fn copy_opt(s: &Option<String>) -> (r: Option<String>)
    ensures
        opt_view(r) == opt_view(*s),
{
    match s {
        Some(t) => Some(copy_string(t)),
        None => None,
    }
}

/// Shows call `i` of `tc` (see `call_step`).
fn push_call(
    stored: &[StoredMessage],
    tc: &str,
    i: usize,
    shown: &mut Vec<Message>,
    used: &mut Vec<Vec<char>>,
)
    ensures
        (views(final(shown)@), final(used)@.map_values(|u: Vec<char>| u@)) == call_step(
            stored@,
            tc@,
            i as nat,
            views(old(shown)@),
            old(used)@.map_values(|u: Vec<char>| u@),
        ),
{
    let ghost s0 = views(shown@);
    let ghost u0 = used@.map_values(|u: Vec<char>| u@);
    let f = item_pointer(i, "/function");
    let c = item_pointer(i, "/custom_tool");
    let func = if json_at_present(tc, f.as_str()) {
        Some(f)
    } else if json_at_present(tc, c.as_str()) {
        Some(c)
    } else {
        None
    };
    let (name, arguments) = match &func {
        Some(fp) => {
            let n = or_else_string(json_at_str(tc, suffixed(fp.as_str(), "/name").as_str()), "");
            let ap = suffixed(fp.as_str(), "/arguments");
            let a = if json_at_present(tc, ap.as_str()) {
                or_else_string(json_at_text(tc, ap.as_str()), "")
            } else {
                or_else_string(json_at_text(tc, suffixed(fp.as_str(), "/input").as_str()), "")
            };
            (n, a)
        },
        None => (chars_of(""), chars_of("")),
    };
    if name.len() == 0 {
        return ;
    }
    let id = or_else_string(json_at_str(tc, item_pointer(i, "/id").as_str()), "");
    shown.push(Message::ToolCall { name: string_of(&name), arguments: string_of(&arguments) });
    proof {
        assert(views(shown@) =~= s0.push(
            MessageView::ToolCall { name: call_name(tc@, i as nat), arguments: call_arguments(tc@, i as nat) },
        ));
    }
    let ghost s1 = views(shown@);
    match find_result(stored, &id) {
        Some(k) => {
            proof {
                lemma_first_result(stored@, id@, 0);
            }
            if !used_contains(used, &id) {
                shown.push(
                    Message::ToolResult {
                        name: string_of(&name),
                        result: copy_string(&stored[k].content),
                        display: copy_opt(&stored[k].runtime_meta),
                    },
                );
                used.push(id);
                proof {
                    assert(views(shown@) =~= s1.push(result_entry(stored@, k as int, name@)));
                    assert(used@.map_values(|u: Vec<char>| u@) =~= u0.push(call_id(tc@, i as nat)));
                }
            }
        },
        None => {},
    }
}

pub open spec fn ids_view(used: Seq<Vec<char>>) -> Seq<Seq<char>> {
    used.map_values(|u: Vec<char>| u@)
}

/// Shows every call of `tc` (see `calls_upto`).
fn push_calls(stored: &[StoredMessage], tc: &str, shown: &mut Vec<Message>, used: &mut Vec<Vec<char>>)
    ensures
        (views(final(shown)@), ids_view(final(used)@)) == calls_upto(
            stored@,
            tc@,
            call_count(tc@),
            views(old(shown)@),
            ids_view(old(used)@),
        ),
{
    let ghost s0 = views(shown@);
    let ghost u0 = ids_view(used@);
    let n = match json_at_array_len(tc, "") {
        Some(n) => n,
        None => 0,
    };
    proof {
        reveal_strlit("");
        assert(""@ =~= Seq::<char>::empty());
    }
    let mut i: usize = 0;
    while i < n
        invariant
            i <= n,
            n == call_count(tc@),
            (views(shown@), ids_view(used@)) == calls_upto(stored@, tc@, i as nat, s0, u0),
        decreases n - i,
    {
        push_call(stored, tc, i, shown, used);
        i = i + 1;
    }
}

fn push_view(shown: &mut Vec<Message>, m: Message)
    ensures
        views(final(shown)@) == views(old(shown)@).push(m@),
{
    shown.push(m);
    assert(views(shown@) =~= views(old(shown)@).push(m@));
}

fn status_of(s: Option<String>) -> (r: TaskStatus)
    ensures
        r == status_named(opt_view(s)),
{
    match s {
        Some(t) => {
            if str_view_eq(t.as_str(), &chars_of("interrupted")) {
                TaskStatus::Interrupted
            } else if str_view_eq(t.as_str(), &chars_of("error")) {
                TaskStatus::Error
            } else {
                TaskStatus::Completed
            }
        },
        None => TaskStatus::Completed,
    }
}

/// Shows an answer (see `assistant_step`).
fn push_assistant(
    stored: &[StoredMessage],
    m: &StoredMessage,
    shown: &mut Vec<Message>,
    used: &mut Vec<Vec<char>>,
    Ghost(marked): Ghost<bool>,
)
    ensures
        ({
            let nx = assistant_step(
                stored@,
                *m,
                RestoreState { shown: views(old(shown)@), used: ids_view(old(used)@), marked },
            );
            &&& views(final(shown)@) == nx.shown
            &&& ids_view(final(used)@) == nx.used
            &&& nx.marked == marked
        }),
{
    match &m.reasoning_content {
        Some(r) => {
            if trim_chars(&chars_of(r.as_str())).len() > 0 {
                push_view(
                    shown,
                    Message::AgentThinking {
                        text: copy_string(r),
                        think_ms: m.think_ms,
                        thinking_started_at: None,
                    },
                );
            }
        },
        None => {},
    }
    if chars_of(m.content.as_str()).len() > 0 {
        push_view(shown, Message::Agent(copy_string(&m.content)));
    }
    match &m.tool_calls {
        Some(tc) => push_calls(stored, tc.as_str(), shown, used),
        None => {},
    }
    match &m.runtime_meta {
        Some(meta) => match json_u64_field(meta.as_str(), "total_ms") {
            Some(t) => {
                let model = or_else_string(json_str_field(meta.as_str(), "model"), "");
                let status = status_of(json_str_field(meta.as_str(), "status"));
                push_view(shown, Message::AgentDone { total_ms: t, model: string_of(&model), status });
            },
            None => {},
        },
        None => {},
    }
}

/// Shows stored message `idx`, after the compaction marker when it goes
/// before it (see `message_step`).
fn push_message(
    stored: &[StoredMessage],
    summary: &Option<String>,
    idx: usize,
    shown: &mut Vec<Message>,
    used: &mut Vec<Vec<char>>,
    marked: &mut bool,
)
    requires
        idx < stored@.len(),
    ensures
        ({
            let nx = message_step(
                stored@,
                opt_view(*summary),
                idx as int,
                RestoreState { shown: views(old(shown)@), used: ids_view(old(used)@), marked: *old(marked) },
            );
            &&& views(final(shown)@) == nx.shown
            &&& ids_view(final(used)@) == nx.used
            &&& *final(marked) == nx.marked
        }),
{
    if !*marked && idx > 0 && stored[idx - 1].compacted && !stored[idx].compacted {
        match summary {
            Some(sm) => {
                push_view(shown, Message::CompactMarker { summary: copy_string(sm), compacted_count: idx });
                *marked = true;
            },
            None => {},
        }
    }
    let m = &stored[idx];
    match m.role {
        MessageRole::User => {
            let plan_mode = match &m.runtime_meta {
                Some(meta) => match json_bool_field(meta.as_str(), "plan_mode") {
                    Some(b) => b,
                    None => false,
                },
                None => false,
            };
            push_view(shown, Message::User { text: copy_string(&m.content), plan_mode });
        },
        MessageRole::Assistant => {
            let ghost mk = *marked;
            push_assistant(stored, m, shown, used, Ghost(mk));
        },
        _ => {},
    }
}

/// Shows the results no call showed (see `leftovers_upto`).
fn push_leftovers(stored: &[StoredMessage], used: &Vec<Vec<char>>, shown: &mut Vec<Message>)
    ensures
        views(final(shown)@) == views(old(shown)@) + leftovers_upto(
            stored@,
            ids_view(used@),
            stored@.len() as int,
        ),
{
    let ghost s0 = views(shown@);
    let mut k: usize = 0;
    while k < stored.len()
        invariant
            k <= stored@.len(),
            views(shown@) == s0 + leftovers_upto(stored@, ids_view(used@), k as int),
        decreases stored@.len() - k,
    {
        let ghost before = views(shown@);
        if stored[k].role == MessageRole::Tool {
            match &stored[k].tool_call_id {
                Some(t) => {
                    let id = chars_of(t.as_str());
                    match find_result(stored, &id) {
                        Some(j) => {
                            if j == k && !used_contains(used, &id) {
                                push_view(
                                    shown,
                                    Message::ToolResult {
                                        name: String::new(),
                                        result: copy_string(&stored[k].content),
                                        display: copy_opt(&stored[k].runtime_meta),
                                    },
                                );
                                proof {
                                    reveal_strlit("");
                                    assert(""@ =~= Seq::<char>::empty());
                                }
                            }
                        },
                        None => {},
                    }
                },
                None => {},
            }
        }
        proof {
            lemma_first_result(stored@, opt_view(stored@[k as int].tool_call_id).unwrap(), 0);
            assert(s0 + leftovers_upto(stored@, ids_view(used@), k + 1) =~= views(shown@));
        }
        k = k + 1;
    }
}

fn all_compacted_exec(stored: &[StoredMessage]) -> (b: bool)
    ensures
        b == all_compacted(stored@),
{
    let mut k: usize = 0;
    while k < stored.len()
        invariant
            k <= stored@.len(),
            forall|j: int| 0 <= j < k ==> #[trigger] stored@[j].compacted,
        decreases stored@.len() - k,
    {
        if !stored[k].compacted {
            return false;
        }
        k = k + 1;
    }
    true
}

/// The transcript of a saved session, rebuilt from its stored messages and
/// the summary of its compaction (see `restored`).
pub fn restore_messages(stored: &[StoredMessage], compact_summary: Option<String>) -> (r: Vec<Message>)
    ensures
        views(r@) == restored(stored@, opt_view(compact_summary)),
{
    let ghost sv = opt_view(compact_summary);
    let mut shown: Vec<Message> = Vec::new();
    let mut used: Vec<Vec<char>> = Vec::new();
    let mut marked = false;
    let mut idx: usize = 0;
    proof {
        assert(views(shown@) =~= Seq::<MessageView>::empty());
        assert(ids_view(used@) =~= Seq::<Seq<char>>::empty());
    }
    while idx < stored.len()
        invariant
            idx <= stored@.len(),
            sv == opt_view(compact_summary),
            ({
                let st = restore_upto(stored@, sv, idx as int);
                &&& views(shown@) == st.shown
                &&& ids_view(used@) == st.used
                &&& marked == st.marked
            }),
        decreases stored@.len() - idx,
    {
        push_message(stored, &compact_summary, idx, &mut shown, &mut used, &mut marked);
        idx = idx + 1;
    }
    if !marked && stored.len() > 0 && all_compacted_exec(stored) {
        match &compact_summary {
            Some(sm) => {
                push_view(&mut shown, Message::CompactMarker { summary: copy_string(sm), compacted_count: stored.len() });
            },
            None => {},
        }
    }
    push_leftovers(stored, &used, &mut shown);
    shown
}

} // verus!

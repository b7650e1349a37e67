//! The chat transcript: the messages shown in the conversation, and how
//! streamed answers, reasoning, tool calls and context compaction extend it.
//! Instants are milliseconds on a monotonic clock the caller reads.

use vstd::prelude::*;

use crate::call_summary::{call_summary, tool_call_summary};
use crate::text::append_str;
use crate::tool_summary::{result_summary, tool_result_summary};
use crate::timing::{duration_since, since};

verus! {

/// How an agent turn ended.
#[derive(Debug, Clone, Copy, PartialEq, Eq, Structural)]
pub enum TaskStatus {
    Completed,
    Interrupted,
    Error,
}

/// One entry of the transcript.
#[derive(Debug, Clone)]
pub enum Message {
    User { text: String, plan_mode: bool },
    Agent(String),
    AgentStreaming(String),
    AgentThinking { text: String, think_ms: Option<u64>, thinking_started_at: Option<u64> },
    AgentDone { total_ms: u64, model: String, status: TaskStatus },
    ToolCall { name: String, arguments: String },
    ToolResult { name: String, result: String, display: Option<String> },
    /// One step (a tool call and its result) of a sub-agent at work.
    SubagentStep { name: String, summary: String, is_done: bool, task_call_id: Option<u64> },
    /// Where the conversation was compacted.
    CompactMarker { summary: String, compacted_count: usize },
    CompactStreaming(String),
}

/// A transcript entry as plain values.
pub enum MessageView {
    User { text: Seq<char>, plan_mode: bool },
    Agent(Seq<char>),
    AgentStreaming(Seq<char>),
    AgentThinking { text: Seq<char>, think_ms: Option<u64>, thinking_started_at: Option<u64> },
    AgentDone { total_ms: u64, model: Seq<char>, status: TaskStatus },
    ToolCall { name: Seq<char>, arguments: Seq<char> },
    ToolResult { name: Seq<char>, result: Seq<char>, display: Option<Seq<char>> },
    SubagentStep { name: Seq<char>, summary: Seq<char>, is_done: bool, task_call_id: Option<u64> },
    CompactMarker { summary: Seq<char>, compacted_count: usize },
    CompactStreaming(Seq<char>),
}

pub open spec fn opt_text(o: Option<String>) -> Option<Seq<char>> {
    match o {
        Some(s) => Some(s@),
        None => None,
    }
}

impl View for Message {
    type V = MessageView;

    open spec fn view(&self) -> MessageView {
        match self {
            Message::User { text, plan_mode } => MessageView::User { text: text@, plan_mode: *plan_mode },
            Message::Agent(t) => MessageView::Agent(t@),
            Message::AgentStreaming(t) => MessageView::AgentStreaming(t@),
            Message::AgentThinking { text, think_ms, thinking_started_at } => MessageView::AgentThinking {
                text: text@,
                think_ms: *think_ms,
                thinking_started_at: *thinking_started_at,
            },
            Message::AgentDone { total_ms, model, status } => MessageView::AgentDone {
                total_ms: *total_ms,
                model: model@,
                status: *status,
            },
            Message::ToolCall { name, arguments } => MessageView::ToolCall {
                name: name@,
                arguments: arguments@,
            },
            Message::ToolResult { name, result, display } => MessageView::ToolResult {
                name: name@,
                result: result@,
                display: opt_text(*display),
            },
            Message::SubagentStep { name, summary, is_done, task_call_id } => MessageView::SubagentStep {
                name: name@,
                summary: summary@,
                is_done: *is_done,
                task_call_id: *task_call_id,
            },
            Message::CompactMarker { summary, compacted_count } => MessageView::CompactMarker {
                summary: summary@,
                compacted_count: *compacted_count,
            },
            Message::CompactStreaming(t) => MessageView::CompactStreaming(t@),
        }
    }
}

// ===== The transcript as a sequence =====

/// Ends the reasoning in progress at the end of the transcript: a trailing
/// reasoning entry still timing gets its duration up to `now`.
pub open spec fn thinking_finalized(ms: Seq<MessageView>, now: u64) -> Seq<MessageView> {
    if ms.len() > 0 {
        match ms.last() {
            MessageView::AgentThinking { text, think_ms: None, thinking_started_at: Some(t) } => {
                ms.drop_last().push(
                    MessageView::AgentThinking {
                        text,
                        think_ms: Some(since(now, t) as u64),
                        thinking_started_at: None,
                    },
                )
            },
            _ => ms,
        }
    } else {
        ms
    }
}

/// A piece of the streamed answer: it extends a trailing answer in progress
/// or starts one, after ending the reasoning in progress.
pub open spec fn with_agent_chunk(ms: Seq<MessageView>, c: Seq<char>, now: u64) -> Seq<MessageView> {
    let f = thinking_finalized(ms, now);
    if f.len() > 0 && f.last() is AgentStreaming {
        f.drop_last().push(MessageView::AgentStreaming(f.last()->AgentStreaming_0 + c))
    } else {
        f.push(MessageView::AgentStreaming(c))
    }
}

/// A trailing reasoning entry that is still being written.
pub open spec fn open_thinking(m: MessageView) -> bool {
    m matches MessageView::AgentThinking { think_ms: None, .. }
}

/// A tool call starting: the reasoning in progress ends; a sub-agent's call
/// becomes an unfinished step showing the call's summary, any other call a
/// tool-call entry.
pub open spec fn with_tool_call(
    ms: Seq<MessageView>,
    name: Seq<char>,
    arguments: Seq<char>,
    subagent: Option<Seq<char>>,
    task_call_id: Option<u64>,
    now: u64,
) -> Seq<MessageView> {
    let f = thinking_finalized(ms, now);
    match subagent {
        Some(san) => f.push(
            MessageView::SubagentStep {
                name: san,
                summary: call_summary(name, arguments),
                is_done: false,
                task_call_id,
            },
        ),
        None => f.push(MessageView::ToolCall { name, arguments }),
    }
}

/// A tool result arriving: a sub-agent's result finishes its step with the
/// result's summary; any other result is added as it is.
pub open spec fn with_tool_result(
    ms: Seq<MessageView>,
    name: Seq<char>,
    result: Seq<char>,
    display: Option<Seq<char>>,
    from_subagent: bool,
) -> Seq<MessageView> {
    if from_subagent {
        with_subagent_result(ms, result_summary(name, result))
    } else {
        ms.push(MessageView::ToolResult { name, result, display })
    }
}

/// A piece of streamed reasoning: it extends a trailing reasoning entry that
/// is still being written, or starts one timed from `now`.
pub open spec fn with_reasoning_chunk(ms: Seq<MessageView>, c: Seq<char>, now: u64) -> Seq<MessageView> {
    if ms.len() > 0 && open_thinking(ms.last()) {
        match ms.last() {
            MessageView::AgentThinking { text, think_ms, thinking_started_at } => ms.drop_last().push(
                MessageView::AgentThinking { text: text + c, think_ms, thinking_started_at },
            ),
            _ => ms,
        }
    } else {
        ms.push(
            MessageView::AgentThinking { text: c, think_ms: None, thinking_started_at: Some(now) },
        )
    }
}

/// The end of an agent turn: the answer in progress becomes a finished
/// answer, and when the turn was timed its duration, model and status follow.
pub open spec fn with_completion(
    ms: Seq<MessageView>,
    total_ms: Option<u64>,
    model: Seq<char>,
    status: TaskStatus,
    now: u64,
) -> Seq<MessageView> {
    let f = thinking_finalized(ms, now);
    let g = if f.len() > 0 && f.last() is AgentStreaming {
        f.drop_last().push(MessageView::Agent(f.last()->AgentStreaming_0))
    } else {
        f
    };
    match total_ms {
        Some(t) => g.push(MessageView::AgentDone { total_ms: t, model, status }),
        None => g,
    }
}

/// The result of a sub-agent's tool: the trailing step is marked done, its
/// summary extended by ` — ` and the result summary when there is one.
pub open spec fn with_subagent_result(ms: Seq<MessageView>, result_summary: Seq<char>) -> Seq<
    MessageView,
> {
    if ms.len() > 0 && ms.last() is SubagentStep {
        match ms.last() {
            MessageView::SubagentStep { name, summary, is_done, task_call_id } => ms.drop_last().push(
                MessageView::SubagentStep {
                    name,
                    summary: if result_summary.len() > 0 {
                        summary + " — "@ + result_summary
                    } else {
                        summary
                    },
                    is_done: true,
                    task_call_id,
                },
            ),
            _ => ms,
        }
    } else {
        ms
    }
}

/// A piece of the streamed compaction summary: it extends a trailing
/// compaction in progress, and is dropped otherwise.
pub open spec fn with_compact_chunk(ms: Seq<MessageView>, c: Seq<char>) -> Seq<MessageView> {
    if ms.len() > 0 && ms.last() is CompactStreaming {
        ms.drop_last().push(MessageView::CompactStreaming(ms.last()->CompactStreaming_0 + c))
    } else {
        ms
    }
}

/// A trailing compaction in progress replaced by `m`; otherwise nothing changes.
pub open spec fn compaction_replaced(ms: Seq<MessageView>, m: MessageView) -> Seq<MessageView> {
    if ms.len() > 0 && ms.last() is CompactStreaming {
        ms.drop_last().push(m)
    } else {
        ms
    }
}

/// The note that replaces a failed compaction.
pub open spec fn compact_failure_text(msg: Seq<char>) -> Seq<char> {
    "[压缩失败: "@ + msg + "]"@
}

/// Entries after which reasoning belongs to a new answer.
pub open spec fn is_boundary(m: MessageView) -> bool {
    match m {
        MessageView::User { .. } | MessageView::ToolCall { .. } | MessageView::ToolResult { .. }
        | MessageView::Agent(_) | MessageView::AgentDone { .. } => true,
        _ => false,
    }
}

/// Index just after the last boundary entry (zero when there is none).
pub open spec fn reasoning_start(ms: Seq<MessageView>) -> int
    decreases ms.len(),
{
    if ms.len() == 0 {
        0
    } else if is_boundary(ms.last()) {
        ms.len() as int
    } else {
        reasoning_start(ms.drop_last())
    }
}

/// Milliseconds of finished reasoning recorded in `ms`.
pub open spec fn think_total(ms: Seq<MessageView>) -> nat
    decreases ms.len(),
{
    if ms.len() == 0 {
        0
    } else {
        think_total(ms.drop_last()) + match ms.last() {
            MessageView::AgentThinking { think_ms: Some(t), .. } => t as nat,
            _ => 0,
        }
    }
}

proof fn lemma_reasoning_start_bounds(ms: Seq<MessageView>)
    ensures
        0 <= reasoning_start(ms) <= ms.len(),
    decreases ms.len(),
{
    if ms.len() > 0 {
        lemma_reasoning_start_bounds(ms.drop_last());
    }
}

// ===== The transcript =====

/// The messages of a conversation, in order.
pub struct Transcript {
    messages: Vec<Message>,
}

impl View for Transcript {
    type V = Seq<MessageView>;

    closed spec fn view(&self) -> Seq<MessageView> {
        self.messages@.map_values(|m: Message| m@)
    }
}

impl Transcript {
    /// An empty transcript.
    pub fn new() -> (t: Transcript)
        ensures
            t@ == Seq::<MessageView>::empty(),
    {
        let t = Transcript { messages: Vec::new() };
        assert(t@ =~= Seq::<MessageView>::empty());
        t
    }

    pub fn len(&self) -> (n: usize)
        ensures
            n == self@.len(),
    {
        self.messages.len()
    }

    pub fn messages(&self) -> (m: &[Message])
        ensures
            m@.map_values(|x: Message| x@) == self@,
    {
        self.messages.as_slice()
    }

    /// Appends `m`.
    pub fn push(&mut self, m: Message)
        ensures
            final(self)@ == old(self)@.push(m@),
    {
        self.messages.push(m);
        assert(self@ =~= old(self)@.push(m@));
    }

    /// Removes and returns the last entry.
    fn pop_last(&mut self) -> (m: Option<Message>)
        ensures
            old(self)@.len() == 0 ==> m is None && final(self)@ == old(self)@,
            old(self)@.len() > 0 ==> (m matches Some(x) && x@ == old(self)@.last()),
            old(self)@.len() > 0 ==> final(self)@ == old(self)@.drop_last(),
    {
        let m = self.messages.pop();
        proof {
            if old(self)@.len() > 0 {
                assert(self@ =~= old(self)@.drop_last());
            }
        }
        m
    }

    /// Ends the reasoning in progress (see `thinking_finalized`).
    pub fn finalize_thinking(&mut self, now: u64)
        ensures
            final(self)@ == thinking_finalized(old(self)@, now),
    {
        match self.pop_last() {
            None => {},
            Some(Message::AgentThinking { text, think_ms: None, thinking_started_at: Some(t) }) => {
                let d = duration_since(now, t);
                self.push(
                    Message::AgentThinking {
                        text,
                        think_ms: Some(d),
                        thinking_started_at: None,
                    },
                );
            },
            Some(m) => {
                self.push(m);
                assert(self@ =~= old(self)@);
            },
        }
    }

    /// Adds a piece of the streamed answer (see `with_agent_chunk`).
    pub fn push_agent_chunk(&mut self, chunk: &str, now: u64)
        ensures
            final(self)@ == with_agent_chunk(old(self)@, chunk@, now),
    {
        self.finalize_thinking(now);
        let ghost f = self@;
        match self.pop_last() {
            Some(Message::AgentStreaming(text)) => {
                let mut text = text;
                append_str(&mut text, chunk);
                self.push(Message::AgentStreaming(text));
            },
            Some(m) => {
                self.push(m);
                self.push(Message::AgentStreaming(chunk.to_owned()));
                assert(f.drop_last().push(f.last()) =~= f);
            },
            None => {
                self.push(Message::AgentStreaming(chunk.to_owned()));
            },
        }
    }

    /// Adds a piece of streamed reasoning (see `with_reasoning_chunk`).
    pub fn push_reasoning_chunk(&mut self, chunk: &str, now: u64)
        ensures
            final(self)@ == with_reasoning_chunk(old(self)@, chunk@, now),
    {
        let ghost f = self@;
        match self.pop_last() {
            Some(Message::AgentThinking { text, think_ms: None, thinking_started_at }) => {
                let mut text = text;
                append_str(&mut text, chunk);
                self.push(Message::AgentThinking { text, think_ms: None, thinking_started_at });
            },
            Some(m) => {
                self.push(m);
                assert(f.drop_last().push(f.last()) =~= f);
                self.push(
                    Message::AgentThinking {
                        text: chunk.to_owned(),
                        think_ms: None,
                        thinking_started_at: Some(now),
                    },
                );
            },
            None => {
                self.push(
                    Message::AgentThinking {
                        text: chunk.to_owned(),
                        think_ms: None,
                        thinking_started_at: Some(now),
                    },
                );
            },
        }
    }

    /// Ends an agent turn (see `with_completion`).
    pub fn complete(&mut self, total_ms: Option<u64>, model: &str, status: TaskStatus, now: u64)
        ensures
            final(self)@ == with_completion(old(self)@, total_ms, model@, status, now),
    {
        self.finalize_thinking(now);
        let ghost f = self@;
        match self.pop_last() {
            Some(Message::AgentStreaming(text)) => {
                self.push(Message::Agent(text));
            },
            Some(m) => {
                self.push(m);
                assert(f.drop_last().push(f.last()) =~= f);
            },
            None => {},
        }
        match total_ms {
            Some(t) => {
                self.push(Message::AgentDone { total_ms: t, model: model.to_owned(), status });
            },
            None => {},
        }
    }

    /// Shows a tool call that starts at `now` (see `with_tool_call`).
    pub fn tool_call_started(
        &mut self,
        name: &str,
        arguments: &str,
        subagent: Option<&str>,
        task_call_id: Option<u64>,
        now: u64,
    )
        ensures
            final(self)@ == with_tool_call(
                old(self)@,
                name@,
                arguments@,
                match subagent {
                    Some(s) => Some(s@),
                    None => None,
                },
                task_call_id,
                now,
            ),
    {
        self.finalize_thinking(now);
        match subagent {
            Some(san) => {
                let summary = tool_call_summary(name, arguments);
                self.push(
                    Message::SubagentStep {
                        name: san.to_owned(),
                        summary,
                        is_done: false,
                        task_call_id,
                    },
                );
            },
            None => {
                self.push(Message::ToolCall { name: name.to_owned(), arguments: arguments.to_owned() });
            },
        }
    }

    /// Shows a tool result (see `with_tool_result`).
    pub fn tool_result_arrived(
        &mut self,
        name: &str,
        result: &str,
        display: Option<String>,
        from_subagent: bool,
    )
        ensures
            final(self)@ == with_tool_result(
                old(self)@,
                name@,
                result@,
                opt_text(display),
                from_subagent,
            ),
    {
        if from_subagent {
            let summary = tool_result_summary(name, result);
            self.finish_subagent_step(summary.as_str());
        } else {
            self.push(Message::ToolResult { name: name.to_owned(), result: result.to_owned(), display });
        }
    }

    /// Records the result of a sub-agent's tool (see `with_subagent_result`).
    pub fn finish_subagent_step(&mut self, result_summary: &str)
        ensures
            final(self)@ == with_subagent_result(old(self)@, result_summary@),
    {
        let ghost f = self@;
        match self.pop_last() {
            Some(Message::SubagentStep { name, summary, is_done, task_call_id }) => {
                let mut summary = summary;
                if !result_summary.is_empty() {
                    append_str(&mut summary, " — ");
                    append_str(&mut summary, result_summary);
                }
                self.push(Message::SubagentStep { name, summary, is_done: true, task_call_id });
            },
            Some(m) => {
                self.push(m);
                assert(f.drop_last().push(f.last()) =~= f);
            },
            None => {},
        }
    }

    /// Adds a piece of the streamed compaction summary (see `with_compact_chunk`).
    pub fn push_compact_chunk(&mut self, chunk: &str)
        ensures
            final(self)@ == with_compact_chunk(old(self)@, chunk@),
    {
        let ghost f = self@;
        match self.pop_last() {
            Some(Message::CompactStreaming(text)) => {
                let mut text = text;
                append_str(&mut text, chunk);
                self.push(Message::CompactStreaming(text));
            },
            Some(m) => {
                self.push(m);
                assert(f.drop_last().push(f.last()) =~= f);
            },
            None => {},
        }
    }

    /// Replaces a trailing compaction in progress by `m` (a marker when the
    /// compaction succeeded, a note when it failed).
    fn replace_compaction(&mut self, m: Message)
        ensures
            final(self)@ == compaction_replaced(old(self)@, m@),
    {
        let ghost f = self@;
        match self.pop_last() {
            Some(Message::CompactStreaming(_)) => {
                self.push(m);
            },
            Some(x) => {
                self.push(x);
                assert(f.drop_last().push(f.last()) =~= f);
            },
            None => {},
        }
    }

    /// A finished compaction: the trailing compaction in progress becomes a
    /// marker with the summary and the number of messages it replaced.
    pub fn finish_compaction(&mut self, summary: &str, compacted_count: usize)
        ensures
            final(self)@ == compaction_replaced(
                old(self)@,
                MessageView::CompactMarker { summary: summary@, compacted_count },
            ),
    {
        self.replace_compaction(Message::CompactMarker { summary: summary.to_owned(), compacted_count });
    }

    /// A failed compaction: the trailing compaction in progress becomes an
    /// answer that says so.
    pub fn fail_compaction(&mut self, msg: &str)
        ensures
            final(self)@ == compaction_replaced(
                old(self)@,
                MessageView::Agent(compact_failure_text(msg@)),
            ),
    {
        let mut text = "[压缩失败: ".to_owned();
        append_str(&mut text, msg);
        append_str(&mut text, "]");
        self.replace_compaction(Message::Agent(text));
    }

    /// Milliseconds of finished reasoning since the last boundary entry (see
    /// `is_boundary`): the thinking time of the answer being persisted.
    pub fn think_ms_since_boundary(&self) -> (t: u64)
        ensures
            t as int == think_total(self@.skip(reasoning_start(self@))) || (think_total(
                self@.skip(reasoning_start(self@)),
            ) > u64::MAX && t == u64::MAX),
    {
        let n = self.messages.len();
        let mut start: usize = n;
        proof {
            lemma_reasoning_start_bounds(self@);
            assert(self@.take(n as int) =~= self@);
        }
        while start > 0 && !Self::is_boundary_message(&self.messages[start - 1])
            invariant
                start <= n == self@.len(),
                reasoning_start(self@) == reasoning_start(self@.take(start as int)),
            decreases start,
        {
            proof {
                assert(self@.take(start as int).drop_last() =~= self@.take(start - 1));
                assert(self@.take(start as int).last() == self@[start - 1]);
            }
            start = start - 1;
        }
        proof {
            if start > 0 {
                assert(self@.take(start as int).last() == self@[start - 1]);
            }
            assert(reasoning_start(self@) == start);
        }
        let ghost tail = self@.skip(start as int);
        let mut total: u64 = 0;
        let mut saturated = false;
        let mut i: usize = start;
        while i < n
            invariant
                start <= i <= n == self@.len(),
                tail == self@.skip(start as int),
                !saturated ==> total == think_total(tail.take(i - start)),
                saturated ==> total == u64::MAX && think_total(tail.take(i - start)) > u64::MAX,
            decreases n - i,
        {
            proof {
                assert(tail.take(i - start + 1).drop_last() =~= tail.take(i - start));
                assert(tail.take(i - start + 1).last() == self@[i as int]);
            }
            let add: u64 = match &self.messages[i] {
                Message::AgentThinking { think_ms: Some(t), .. } => *t,
                _ => 0,
            };
            if !saturated {
                if total > u64::MAX - add {
                    saturated = true;
                    total = u64::MAX;
                } else {
                    total = total + add;
                }
            }
            i = i + 1;
        }
        proof {
            assert(tail.take(n - start) =~= tail);
        }
        total
    }

    fn is_boundary_message(m: &Message) -> (b: bool)
        ensures
            b == is_boundary(m@),
    {
        match m {
            Message::User { .. } | Message::ToolCall { .. } | Message::ToolResult { .. }
            | Message::Agent(_) | Message::AgentDone { .. } => true,
            _ => false,
        }
    }
}

// ===== Laws =====

/// Streaming an answer in two pieces gives the same transcript as streaming
/// it in one: the pieces concatenate.
pub proof fn law_agent_chunks_concatenate(
    ms: Seq<MessageView>,
    a: Seq<char>,
    b: Seq<char>,
    t1: u64,
    t2: u64,
)
    ensures
        with_agent_chunk(with_agent_chunk(ms, a, t1), b, t2) == with_agent_chunk(ms, a + b, t1),
{
    let f = thinking_finalized(ms, t1);
    let once = with_agent_chunk(ms, a, t1);
    assert(thinking_finalized(once, t2) == once);
    if f.len() > 0 && f.last() is AgentStreaming {
        let t = f.last()->AgentStreaming_0;
        assert(t + a + b =~= t + (a + b));
        assert(once.drop_last() =~= f.drop_last());
    } else {
        assert(once.drop_last() =~= f);
    }
}

/// Streaming reasoning in two pieces gives the same transcript as streaming
/// it in one, timed from the first piece.
pub proof fn law_reasoning_chunks_concatenate(
    ms: Seq<MessageView>,
    a: Seq<char>,
    b: Seq<char>,
    t1: u64,
    t2: u64,
)
    ensures
        with_reasoning_chunk(with_reasoning_chunk(ms, a, t1), b, t2) == with_reasoning_chunk(
            ms,
            a + b,
            t1,
        ),
{
    let once = with_reasoning_chunk(ms, a, t1);
    if ms.len() > 0 && open_thinking(ms.last()) {
        match ms.last() {
            MessageView::AgentThinking { text, think_ms, thinking_started_at } => {
                assert(text + a + b =~= text + (a + b));
                assert(once.drop_last() =~= ms.drop_last());
            },
            _ => {},
        }
    } else {
        assert(once.drop_last() =~= ms);
    }
}

/// Streaming touches only the end of the transcript: every entry but the
/// last stays as it was, and at most one entry is added.
pub proof fn law_streaming_keeps_history(ms: Seq<MessageView>, c: Seq<char>, now: u64)
    requires
        ms.len() > 0,
    ensures
        with_agent_chunk(ms, c, now).take(ms.len() - 1) == ms.take(ms.len() - 1),
        with_reasoning_chunk(ms, c, now).take(ms.len() - 1) == ms.take(ms.len() - 1),
        with_agent_chunk(ms, c, now).len() <= ms.len() + 1,
        with_reasoning_chunk(ms, c, now).len() <= ms.len() + 1,
{
    let f = thinking_finalized(ms, now);
    assert(f.take(ms.len() - 1) =~= ms.take(ms.len() - 1));
    assert(with_agent_chunk(ms, c, now).take(ms.len() - 1) =~= ms.take(ms.len() - 1));
    assert(with_reasoning_chunk(ms, c, now).take(ms.len() - 1) =~= ms.take(ms.len() - 1));
}

/// Ending a turn keeps the streamed answer's text, now as a finished answer.
pub proof fn law_completion_keeps_answer(
    ms: Seq<MessageView>,
    model: Seq<char>,
    status: TaskStatus,
    now: u64,
)
    requires
        ms.len() > 0,
        ms.last() is AgentStreaming,
    ensures
        with_completion(ms, None, model, status, now).last() == MessageView::Agent(
            ms.last()->AgentStreaming_0,
        ),
        with_completion(ms, None, model, status, now).len() == ms.len(),
{
}

} // verus!

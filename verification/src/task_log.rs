//! The log of delegated tasks: each `task` call to a sub-agent gets a
//! record, numbered in call order, that is completed with the sub-session
//! it ran in or marked failed when its result comes. The log keeps the
//! latest records only. Instants are milliseconds on a monotonic clock the
//! caller reads.

use vstd::prelude::*;

use crate::json_args::{json_str_field, json_str_member, opt_view, or_else, or_else_string};
use crate::session_picker::SessionSummary;
use crate::text::{chars_eq, chars_of, string_of, sub_chars};
use crate::tool::{parse_task_id_from_result, task_id_of};

verus! {

/// How many records the log keeps; the oldest go first.
pub const MAX_TASK_RECORDS: usize = 500;

/// Where a delegated task stands.
#[derive(Debug, Clone, Copy, PartialEq, Eq, Structural)]
pub enum TaskRunStatus {
    Running,
    Completed,
    Error,
}

/// One delegated task.
#[derive(Debug, Clone)]
pub struct TaskRecord {
    pub call_id: u64,
    /// The sub-session the task ran in (empty until the result names it).
    pub session_id: String,
    pub subagent_name: String,
    pub description: String,
    pub started_at: u64,
    pub status: TaskRunStatus,
}

/// A record as plain values.
pub struct TaskRecordView {
    pub call_id: u64,
    pub session_id: Seq<char>,
    pub subagent_name: Seq<char>,
    pub description: Seq<char>,
    pub started_at: u64,
    pub status: TaskRunStatus,
}

pub open spec fn record_view(r: TaskRecord) -> TaskRecordView {
    TaskRecordView {
        call_id: r.call_id,
        session_id: r.session_id@,
        subagent_name: r.subagent_name@,
        description: r.description@,
        started_at: r.started_at,
        status: r.status,
    }
}

pub open spec fn records_view(rs: Seq<TaskRecord>) -> Seq<TaskRecordView> {
    rs.map_values(|r: TaskRecord| record_view(r))
}

/// The log: the last call number given, the task under way, the records.
pub struct TaskLog {
    pub call_counter: u64,
    pub active_call_id: Option<u64>,
    pub records: Vec<TaskRecord>,
}

impl TaskLog {
    /// Records are numbered in increasing order, up to the last number
    /// given, and there are no more than the log keeps.
    pub open spec fn wf(&self) -> bool {
        &&& self.records@.len() <= MAX_TASK_RECORDS
        &&& forall|i: int, j: int|
            0 <= i < j < self.records@.len() ==> (#[trigger] self.records@[i]).call_id
                < (#[trigger] self.records@[j]).call_id
        &&& forall|i: int|
            0 <= i < self.records@.len() ==> (#[trigger] self.records@[i]).call_id
                <= self.call_counter
    }

    pub fn new() -> (r: Self)
        ensures
            r.wf(),
            r.call_counter == 0,
            r.active_call_id is None,
            r.records@.len() == 0,
    {
        TaskLog { call_counter: 0, active_call_id: None, records: Vec::new() }
    }

    /// Starts a task of `subagent` at `now`: it gets the next number, becomes
    /// the task under way, and its record is added (dropping the oldest when
    /// the log is full). Returns its number.
    pub fn start(&mut self, subagent: &str, description: &str, now: u64) -> (id: u64)
        requires
            old(self).wf(),
            old(self).call_counter < u64::MAX,
        ensures
            final(self).wf(),
            id == old(self).call_counter + 1,
            final(self).call_counter == id,
            final(self).active_call_id == Some(id),
            ({
                let added = records_view(old(self).records@).push(
                    TaskRecordView {
                        call_id: id,
                        session_id: Seq::empty(),
                        subagent_name: subagent@,
                        description: description@,
                        started_at: now,
                        status: TaskRunStatus::Running,
                    },
                );
                records_view(final(self).records@) == if added.len() > MAX_TASK_RECORDS {
                    added.drop_first()
                } else {
                    added
                }
            }),
    {
        let id = self.call_counter + 1;
        self.call_counter = id;
        self.active_call_id = Some(id);
        let ghost r0 = self.records@;
        let rec = TaskRecord {
            call_id: id,
            session_id: String::new(),
            subagent_name: string_of(&chars_of(subagent)),
            description: string_of(&chars_of(description)),
            started_at: now,
            status: TaskRunStatus::Running,
        };
        self.records.push(rec);
        proof {
            assert(records_view(self.records@) =~= records_view(r0).push(record_view(rec)));
        }
        if self.records.len() > MAX_TASK_RECORDS {
            let ghost r1 = self.records@;
            self.records.remove(0);
            proof {
                assert(self.records@ =~= r1.drop_first());
                assert(records_view(self.records@) =~= records_view(r1).drop_first());
                assert forall|i: int, j: int|
                    0 <= i < j < self.records@.len() implies (#[trigger] self.records@[i]).call_id
                        < (#[trigger] self.records@[j]).call_id by {
                    assert(self.records@[i] == r1[i + 1]);
                    assert(self.records@[j] == r1[j + 1]);
                }
            }
        }
        id
    }

    /// Starts a task from the JSON arguments of a `task` call, when they
    /// name a sub-agent (see `start`); returns its number.
    pub fn start_from_arguments(&mut self, arguments: &str, now: u64) -> (r: Option<u64>)
        requires
            old(self).wf(),
            old(self).call_counter < u64::MAX,
        ensures
            final(self).wf(),
            or_else(json_str_member(arguments@, "subagent"@), ""@).len() == 0 ==> r is None
                && *final(self) == *old(self),
            or_else(json_str_member(arguments@, "subagent"@), ""@).len() > 0 ==> {
                let added = records_view(old(self).records@).push(
                    TaskRecordView {
                        call_id: (old(self).call_counter + 1) as u64,
                        session_id: Seq::empty(),
                        subagent_name: or_else(json_str_member(arguments@, "subagent"@), ""@),
                        description: or_else(json_str_member(arguments@, "description"@), ""@),
                        started_at: now,
                        status: TaskRunStatus::Running,
                    },
                );
                &&& r == Some((old(self).call_counter + 1) as u64)
                &&& final(self).call_counter == old(self).call_counter + 1
                &&& final(self).active_call_id == r
                &&& records_view(final(self).records@) == if added.len() > MAX_TASK_RECORDS {
                    added.drop_first()
                } else {
                    added
                }
            },
    {
        let name = or_else_string(json_str_field(arguments, "subagent"), "");
        if name.len() == 0 {
            return None;
        }
        let desc = or_else_string(json_str_field(arguments, "description"), "");
        let id = self.start(string_of(&name).as_str(), string_of(&desc).as_str(), now);
        Some(id)
    }

    /// The result of the task under way came: its record gets the
    /// sub-session the result names and completes, or fails when the result
    /// names none. Nothing is under way afterwards.
    pub fn finish(&mut self, result: &str)
        requires
            old(self).wf(),
        ensures
            final(self).wf(),
            final(self).call_counter == old(self).call_counter,
            final(self).active_call_id is None,
            final(self).records@.len() == old(self).records@.len(),
            forall|i: int|
                0 <= i < old(self).records@.len() ==> {
                    let o = record_view(old(self).records@[i]);
                    let n = record_view(#[trigger] final(self).records@[i]);
                    if old(self).active_call_id == Some(o.call_id) {
                        match task_id_of(result@) {
                            Some(sid) => n == TaskRecordView {
                                session_id: sid,
                                status: TaskRunStatus::Completed,
                                ..o
                            },
                            None => n == TaskRecordView { status: TaskRunStatus::Error, ..o },
                        }
                    } else {
                        n == o
                    }
                },
    {
        let sid = parse_task_id_from_result(result);
        let active = self.active_call_id;
        self.active_call_id = None;
        let id = match active {
            Some(id) => id,
            None => {
                return ;
            },
        };
        let ghost r0 = self.records@;
        let mut found: Option<usize> = None;
        let mut i: usize = 0;
        while i < self.records.len()
            invariant
                self.records@ == r0,
                i <= r0.len(),
                found matches Some(k) ==> k < r0.len() && r0[k as int].call_id == id,
                found is None ==> forall|k: int| 0 <= k < i ==> (#[trigger] r0[k]).call_id != id,
            decreases r0.len() - i,
        {
            if found.is_none() && self.records[i].call_id == id {
                found = Some(i);
            }
            i = i + 1;
        }
        match found {
            Some(k) => {
                let o = &self.records[k];
                let rec = TaskRecord {
                    call_id: o.call_id,
                    session_id: match &sid {
                        Some(s) => string_of(&chars_of(s.as_str())),
                        None => string_of(&chars_of(o.session_id.as_str())),
                    },
                    subagent_name: string_of(&chars_of(o.subagent_name.as_str())),
                    description: string_of(&chars_of(o.description.as_str())),
                    started_at: o.started_at,
                    status: match &sid {
                        Some(_) => TaskRunStatus::Completed,
                        None => TaskRunStatus::Error,
                    },
                };
                self.records.set(k, rec);
                proof {
                    assert forall|j: int| 0 <= j < r0.len() && j != k implies r0[j].call_id != id by {
                        if j < k {
                            assert(r0[j].call_id < r0[k as int].call_id);
                        } else {
                            assert(r0[k as int].call_id < r0[j].call_id);
                        }
                    }
                }
            },
            None => {},
        }
    }
}

// ===== The tasks panel =====

/// One line of the tasks panel: a task of the log (with its sub-session
/// when the store has it), or a stored sub-session the log does not know
/// (from a restored conversation).
#[derive(Debug, Clone)]
pub struct TaskEntry {
    pub record: Option<TaskRecord>,
    pub subsession: Option<SessionSummary>,
    pub subagent_name: String,
    pub description: String,
    pub status: TaskRunStatus,
}

/// The index of the first sub-session with the id `id`.
pub open spec fn first_session(subs: Seq<SessionSummary>, id: Seq<char>, k: int) -> Option<int>
    decreases subs.len() - k,
{
    if k < 0 || k >= subs.len() {
        None
    } else if subs[k].id@ == id {
        Some(k)
    } else {
        first_session(subs, id, k + 1)
    }
}

/// Whether some task of the log ran in the sub-session `id`.
pub open spec fn logged(records: Seq<TaskRecord>, id: Seq<char>) -> bool {
    exists|i: int| 0 <= i < records.len() && (#[trigger] records[i]).session_id@ == id
}

/// The indices, among the first `n` sub-sessions, of those no task of the
/// log ran in.
pub open spec fn unlogged_upto(records: Seq<TaskRecord>, subs: Seq<SessionSummary>, n: int) -> Seq<int>
    decreases n,
{
    if n <= 0 {
        Seq::empty()
    } else {
        let rest = unlogged_upto(records, subs, n - 1);
        if logged(records, subs[n - 1].id@) {
            rest
        } else {
            rest.push(n - 1)
        }
    }
}

/// The sub-agent and description a sub-session title gives: the title is
/// `name|description`, or just a name; an empty title names `subagent`.
pub open spec fn title_parts(title: Seq<char>) -> (Seq<char>, Seq<char>) {
    if title.contains('|') {
        let k = choose|k: int| 0 <= k < title.len() && title[k] == '|' && forall|j: int|
            0 <= j < k ==> title[j] != '|';
        (title.take(k), title.skip(k + 1))
    } else if title.len() > 0 {
        (title, Seq::empty())
    } else {
        ("subagent"@, Seq::empty())
    }
}

fn copy_string(s: &String) -> (r: String)
    ensures
        r@ == s@,
{
    string_of(&chars_of(s.as_str()))
}

fn copy_record(r: &TaskRecord) -> (c: TaskRecord)
    ensures
        record_view(c) == record_view(*r),
{
    TaskRecord {
        call_id: r.call_id,
        session_id: copy_string(&r.session_id),
        subagent_name: copy_string(&r.subagent_name),
        description: copy_string(&r.description),
        started_at: r.started_at,
        status: r.status,
    }
}

pub open spec fn summary_view(s: SessionSummary) -> (Seq<char>, Seq<char>, Seq<char>, Seq<char>) {
    (s.id@, s.title@, s.model@, s.updated_at@)
}

fn copy_summary(s: &SessionSummary) -> (c: SessionSummary)
    ensures
        summary_view(c) == summary_view(*s),
{
    SessionSummary {
        id: copy_string(&s.id),
        title: copy_string(&s.title),
        model: copy_string(&s.model),
        updated_at: copy_string(&s.updated_at),
    }
}

fn find_session(subs: &[SessionSummary], id: &String) -> (r: Option<usize>)
    ensures
        match r {
            Some(k) => first_session(subs@, id@, 0) == Some(k as int),
            None => first_session(subs@, id@, 0) is None,
        },
{
    let target = chars_of(id.as_str());
    let mut k: usize = 0;
    while k < subs.len()
        invariant
            k <= subs@.len(),
            target@ == id@,
            first_session(subs@, id@, 0) == first_session(subs@, id@, k as int),
        decreases subs@.len() - k,
    {
        if chars_eq(&chars_of(subs[k].id.as_str()), &target) {
            return Some(k);
        }
        k = k + 1;
    }
    None
}

fn is_logged(records: &[TaskRecord], id: &String) -> (b: bool)
    ensures
        b == logged(records@, id@),
{
    let target = chars_of(id.as_str());
    let mut i: usize = 0;
    while i < records.len()
        invariant
            i <= records@.len(),
            target@ == id@,
            forall|j: int| 0 <= j < i ==> (#[trigger] records@[j]).session_id@ != id@,
        decreases records@.len() - i,
    {
        if chars_eq(&chars_of(records[i].session_id.as_str()), &target) {
            return true;
        }
        i = i + 1;
    }
    false
}

fn split_title(title: &String) -> (r: (String, String))
    ensures
        (r.0@, r.1@) == title_parts(title@),
{
    let v = chars_of(title.as_str());
    let mut k: usize = 0;
    while k < v.len()
        invariant
            k <= v@.len(),
            v@ == title@,
            forall|j: int| 0 <= j < k ==> v@[j] != '|',
        decreases v@.len() - k,
    {
        if v[k] == '|' {
            proof {
                assert(title@.contains('|'));
                let c = choose|c: int| 0 <= c < title@.len() && title@[c] == '|' && forall|j: int|
                    0 <= j < c ==> title@[j] != '|';
                assert(c == k as int) by {
                    if c < k {
                        assert(v@[c] != '|');
                    } else if c > k {
                        assert(title@[k as int] == '|');
                    }
                }
                assert(v@.subrange(0, k as int) =~= title@.take(k as int));
                assert(v@.subrange(k + 1, v@.len() as int) =~= title@.skip(k + 1));
            }
            return (string_of(&sub_chars(&v, 0, k)), string_of(&sub_chars(&v, k + 1, v.len())));
        }
        k = k + 1;
    }
    proof {
        assert(!title@.contains('|'));
    }
    if v.len() > 0 {
        (string_of(&v), String::new())
    } else {
        (string_of(&chars_of("subagent")), String::new())
    }
}

/// The lines of the tasks panel: each task of the log in order, with the
/// first stored sub-session it ran in; then, in stored order, the stored
/// sub-sessions no task of the log ran in, shown as completed, with the
/// sub-agent and description their title gives.
pub fn build_task_entries(records: &[TaskRecord], subsessions: &[SessionSummary]) -> (r: Vec<
    TaskEntry,
>)
    ensures
        r@.len() == records@.len() + unlogged_upto(records@, subsessions@, subsessions@.len() as int).len(),
        forall|i: int|
            0 <= i < records@.len() ==> {
                let e = #[trigger] r@[i];
                let rec = records@[i];
                &&& e.record matches Some(x) && record_view(x) == record_view(rec)
                &&& match first_session(subsessions@, rec.session_id@, 0) {
                    Some(k) => e.subsession matches Some(s) && summary_view(s) == summary_view(
                        subsessions@[k],
                    ),
                    None => e.subsession is None,
                }
                &&& e.subagent_name@ == rec.subagent_name@
                &&& e.description@ == rec.description@
                &&& e.status == rec.status
            },
        forall|k: int|
            0 <= k < unlogged_upto(records@, subsessions@, subsessions@.len() as int).len() ==> {
                let e = #[trigger] r@[records@.len() + k];
                let sub = subsessions@[unlogged_upto(
                    records@,
                    subsessions@,
                    subsessions@.len() as int,
                )[k]];
                &&& e.record is None
                &&& e.subsession matches Some(s) && summary_view(s) == summary_view(sub)
                &&& (e.subagent_name@, e.description@) == title_parts(sub.title@)
                &&& e.status == TaskRunStatus::Completed
            },
{
    let mut entries: Vec<TaskEntry> = Vec::new();
    let mut i: usize = 0;
    while i < records.len()
        invariant
            i <= records@.len(),
            entries@.len() == i,
            forall|j: int|
                0 <= j < i ==> {
                    let e = #[trigger] entries@[j];
                    let rec = records@[j];
                    &&& e.record matches Some(x) && record_view(x) == record_view(rec)
                    &&& match first_session(subsessions@, rec.session_id@, 0) {
                        Some(k) => e.subsession matches Some(s) && summary_view(s) == summary_view(
                            subsessions@[k],
                        ),
                        None => e.subsession is None,
                    }
                    &&& e.subagent_name@ == rec.subagent_name@
                    &&& e.description@ == rec.description@
                    &&& e.status == rec.status
                },
        decreases records@.len() - i,
    {
        let rec = &records[i];
        let sub = match find_session(subsessions, &rec.session_id) {
            Some(k) => {
                proof {
                    lemma_first_session(subsessions@, rec.session_id@, 0);
                }
                Some(copy_summary(&subsessions[k]))
            },
            None => None,
        };
        entries.push(
            TaskEntry {
                record: Some(copy_record(rec)),
                subsession: sub,
                subagent_name: copy_string(&rec.subagent_name),
                description: copy_string(&rec.description),
                status: rec.status,
            },
        );
        i = i + 1;
    }
    let n = records.len();
    let mut k: usize = 0;
    while k < subsessions.len()
        invariant
            k <= subsessions@.len(),
            n == records@.len(),
            entries@.len() == n + unlogged_upto(records@, subsessions@, k as int).len(),
            forall|j: int|
                0 <= j < n ==> {
                    let e = #[trigger] entries@[j];
                    let rec = records@[j];
                    &&& e.record matches Some(x) && record_view(x) == record_view(rec)
                    &&& match first_session(subsessions@, rec.session_id@, 0) {
                        Some(k) => e.subsession matches Some(s) && summary_view(s) == summary_view(
                            subsessions@[k],
                        ),
                        None => e.subsession is None,
                    }
                    &&& e.subagent_name@ == rec.subagent_name@
                    &&& e.description@ == rec.description@
                    &&& e.status == rec.status
                },
            forall|m: int|
                0 <= m < unlogged_upto(records@, subsessions@, k as int).len() ==> {
                    let e = #[trigger] entries@[n + m];
                    let sub = subsessions@[unlogged_upto(records@, subsessions@, k as int)[m]];
                    &&& e.record is None
                    &&& e.subsession matches Some(s) && summary_view(s) == summary_view(sub)
                    &&& (e.subagent_name@, e.description@) == title_parts(sub.title@)
                    &&& e.status == TaskRunStatus::Completed
                },
        decreases subsessions@.len() - k,
    {
        let ghost before = unlogged_upto(records@, subsessions@, k as int);
        let ghost e0 = entries@;
        let sub = &subsessions[k];
        if !is_logged(records, &sub.id) {
            let (name, desc) = split_title(&sub.title);
            entries.push(
                TaskEntry {
                    record: None,
                    subsession: Some(copy_summary(sub)),
                    subagent_name: name,
                    description: desc,
                    status: TaskRunStatus::Completed,
                },
            );
            proof {
                let after = unlogged_upto(records@, subsessions@, k + 1);
                assert(after == before.push(k as int));
                assert forall|m: int| 0 <= m < after.len() implies {
                    let e = #[trigger] entries@[n + m];
                    let sub = subsessions@[after[m]];
                    &&& e.record is None
                    &&& e.subsession matches Some(s) && summary_view(s) == summary_view(sub)
                    &&& (e.subagent_name@, e.description@) == title_parts(sub.title@)
                    &&& e.status == TaskRunStatus::Completed
                } by {
                    if m < before.len() {
                        assert(entries@[n + m] == e0[n + m]);
                        assert(after[m] == before[m]);
                    }
                }
                assert forall|j: int| 0 <= j < n implies entries@[j] == e0[j] by {}
            }
        }
        k = k + 1;
    }
    entries
}

impl TaskEntry {
    /// The sub-session whose messages the detail view shows: the stored
    /// one, else the one the task ran in.
    pub fn session_id(&self) -> (r: Option<String>)
        ensures
            match self.subsession {
                Some(s) => r matches Some(x) && x@ == s.id@,
                None => match self.record {
                    Some(rec) => r matches Some(x) && x@ == rec.session_id@,
                    None => r is None,
                },
            },
    {
        match &self.subsession {
            Some(s) => Some(copy_string(&s.id)),
            None => match &self.record {
                Some(rec) => Some(copy_string(&rec.session_id)),
                None => None,
            },
        }
    }
}

proof fn lemma_first_session(subs: Seq<SessionSummary>, id: Seq<char>, j: int)
    ensures
        first_session(subs, id, j) matches Some(k) ==> j <= k < subs.len() && subs[k].id@ == id,
    decreases subs.len() - j,
{
    if !(j < 0 || j >= subs.len()) {
        lemma_first_session(subs, id, j + 1);
    }
}

} // verus!

//! Slash commands: parsing the input line, matching built-in interface
//! commands and prompt commands, and the completion list.

use vstd::prelude::*;

use crate::text::{
    chars_of, chars_start_with, extend_chars, is_whitespace, is_ws, lemma_trim_end_idempotent,
    lemma_trim_end_then_start, lemma_ws_prefix_bounds, lemma_ws_prefix_concat,
    lemma_ws_suffix_bounds, lemma_ws_suffix_concat, skip_ws, starts_with, str_eq, string_of,
    sub_chars, trim, trim_end, trim_end_index, trim_start, ws_prefix_len, ws_suffix_len,
};

verus! {

/// Static description of a built-in interface command.
pub struct SlashCommand {
    pub name: &'static str,
    pub description: &'static str,
}

/// Interface commands: they act on the interface and send nothing to the model.
#[derive(Debug, Clone, Copy, PartialEq, Eq, Structural)]
pub enum Command {
    New,
    Session,
    Plan,
    Models,
    Compact,
    Skills,
    Mcp,
    Tasks,
    Yolo,
    Exit,
}

/// One line of the command list, for an interface or a prompt command.
#[derive(Clone)]
pub struct CommandEntry {
    pub name: String,
    pub description: String,
    pub is_ui: bool,
}

/// What an input line matched: an interface command or a prompt command.
pub enum MatchedCommand {
    Ui(Command),
    Prompt { name: String, args: String },
}

/// The prompt commands that are known, by name and description, in the
/// order they were registered.
pub struct CommandRegistry {
    commands: Vec<(String, String)>,
}

pub open spec fn pair_view(p: (String, String)) -> (Seq<char>, Seq<char>) {
    (p.0@, p.1@)
}

impl View for CommandRegistry {
    type V = Seq<(Seq<char>, Seq<char>)>;

    closed spec fn view(&self) -> Seq<(Seq<char>, Seq<char>)> {
        self.commands@.map_values(|p: (String, String)| pair_view(p))
    }
}

/// Index of the first entry of `names` equal to `x`, or -1.
pub open spec fn index_in(names: Seq<Seq<char>>, x: Seq<char>) -> int
    decreases names.len(),
{
    if names.len() == 0 {
        -1
    } else if names[0] == x {
        0
    } else {
        let r = index_in(names.drop_first(), x);
        if r < 0 {
            -1
        } else {
            r + 1
        }
    }
}

/// Index of the first registered command called `name`, or -1.
pub open spec fn registry_index(reg: Seq<(Seq<char>, Seq<char>)>, name: Seq<char>) -> int {
    index_in(reg.map_values(|p: (Seq<char>, Seq<char>)| p.0), name)
}

impl CommandRegistry {
    pub fn new() -> (r: Self)
        ensures
            r@ == Seq::<(Seq<char>, Seq<char>)>::empty(),
    {
        let r = CommandRegistry { commands: Vec::new() };
        proof {
            assert(r@ =~= Seq::<(Seq<char>, Seq<char>)>::empty());
        }
        r
    }

    /// Adds a prompt command at the end.
    pub fn register(&mut self, name: &str, description: &str)
        ensures
            final(self)@ == old(self)@.push((name@, description@)),
    {
        let ghost old_view = self@;
        let n = string_of(&chars_of(name));
        let d = string_of(&chars_of(description));
        self.commands.push((n, d));
        proof {
            assert(self@ =~= old_view.push((name@, description@)));
        }
    }

    /// Index of the first command called `name`.
    pub fn find(&self, name: &str) -> (r: Option<usize>)
        ensures
            match r {
                Some(i) => i as int == registry_index(self@, name@),
                None => registry_index(self@, name@) == -1,
            },
    {
        let ghost names = self@.map_values(|p: (Seq<char>, Seq<char>)| p.0);
        let mut i: usize = 0;
        proof {
            assert(names.skip(0) =~= names);
        }
        while i < self.commands.len()
            invariant
                i <= self.commands@.len(),
                names == self@.map_values(|p: (Seq<char>, Seq<char>)| p.0),
                names.len() == self.commands@.len(),
                forall|j: int| 0 <= j < i ==> names[j] != name@,
                index_in(names, name@) == (if index_in(names.skip(i as int), name@) < 0 {
                    -1
                } else {
                    index_in(names.skip(i as int), name@) + i
                }),
            decreases self.commands@.len() - i,
        {
            proof {
                assert(names[i as int] == self.commands@[i as int].0@);
                assert(names.skip(i as int)[0] == names[i as int]);
                assert(names.skip(i as int).drop_first() =~= names.skip(i + 1));
            }
            if str_eq(self.commands[i].0.as_str(), name) {
                return Some(i);
            }
            i = i + 1;
        }
        proof {
            assert(names.skip(i as int).len() == 0);
        }
        None
    }

    /// The registered commands, by name and description.
    pub fn list(&self) -> (r: &[(String, String)])
        ensures
            r@.map_values(|p: (String, String)| pair_view(p)) == self@,
    {
        self.commands.as_slice()
    }
}

impl Default for CommandRegistry {
    fn default() -> (r: Self)
        ensures
            r@ == Seq::<(Seq<char>, Seq<char>)>::empty(),
    {
        CommandRegistry::new()
    }
}

/// Index in `v` of its first white-space character, or `v`'s length.
pub open spec fn first_ws(v: Seq<char>) -> int
    decreases v.len(),
{
    if v.len() == 0 {
        0
    } else if is_ws(v[0]) {
        0
    } else {
        1 + first_ws(v.drop_first())
    }
}

/// A slash command line split into its name and its arguments: the line
/// without surrounding white space must start with `/` and a non-empty
/// name, which ends at the first white space; the arguments are the rest
/// without surrounding white space.
pub open spec fn parse_slash(input: Seq<char>) -> Option<(Seq<char>, Seq<char>)> {
    let t = trim(input);
    if t.len() == 0 || t[0] != '/' {
        None
    } else {
        let rest = t.skip(1);
        let n = first_ws(rest);
        if n == 0 {
            None
        } else {
            Some((rest.take(n), trim(rest.skip(n))))
        }
    }
}

proof fn lemma_first_ws_bounds(v: Seq<char>)
    ensures
        0 <= first_ws(v) <= v.len(),
    decreases v.len(),
{
    if v.len() > 0 && !is_ws(v[0]) {
        lemma_first_ws_bounds(v.drop_first());
    }
}

proof fn lemma_first_ws_word(n: Seq<char>, q: Seq<char>)
    requires
        forall|i: int| 0 <= i < n.len() ==> !is_ws(#[trigger] n[i]),
        q.len() == 0 || is_ws(q[0]),
    ensures
        first_ws(n + q) == n.len(),
    decreases n.len(),
{
    if n.len() == 0 {
        assert(n + q =~= q);
    } else {
        assert((n + q)[0] == n[0]);
        assert((n + q).drop_first() =~= n.drop_first() + q);
        assert forall|i: int| 0 <= i < n.drop_first().len() implies !is_ws(
            #[trigger] n.drop_first()[i],
        ) by {
            assert(n.drop_first()[i] == n[i + 1]);
        }
        lemma_first_ws_word(n.drop_first(), q);
    }
}

/// A command line made of `/`, a name (not empty, without white space), a
/// space and arguments reads back as that name and the arguments without
/// their surrounding white space.
pub proof fn law_command_line_reads_back(name: Seq<char>, args: Seq<char>)
    requires
        name.len() > 0,
        forall|i: int| 0 <= i < name.len() ==> !is_ws(#[trigger] name[i]),
    ensures
        parse_slash(seq!['/'] + name + seq![' '] + args) == Some((name, trim(args))),
{
    let head = seq!['/'] + name;
    let p = head + seq![' '];
    let line = p + args;
    assert(seq!['/'] + name + seq![' '] + args =~= line);
    assert(line[0] == '/');
    assert(!is_ws('/'));
    assert(trim_start(line) =~= line);
    lemma_ws_suffix_bounds(args);
    lemma_ws_suffix_concat(p, args);
    assert(is_ws(' '));
    assert(p.last() == ' ');
    assert(p.drop_last() =~= head);
    assert(head.last() == name.last());
    assert(!is_ws(name[name.len() - 1]));
    assert(ws_suffix_len(head) == 0);
    assert(ws_suffix_len(p) == 1);
    if ws_suffix_len(args) < args.len() {
        let e = trim_end(args);
        let t = trim(line);
        assert(t =~= p + e);
        let rest = t.skip(1);
        assert(rest =~= name + (seq![' '] + e));
        lemma_first_ws_word(name, seq![' '] + e);
        assert(rest.take(name.len() as int) =~= name);
        assert(rest.skip(name.len() as int) =~= seq![' '] + e);
        let sp = seq![' '];
        assert(ws_prefix_len(sp) == 1) by {
            assert(sp[0] == ' ');
            assert(is_ws(sp[0]));
            assert(sp.drop_first() =~= Seq::<char>::empty());
            assert(ws_prefix_len(sp.drop_first()) == 0);
        }
        lemma_ws_prefix_concat(sp, e);
        lemma_ws_prefix_bounds(e);
        assert(sp + e =~= seq![' '] + e);
        assert((sp + e).skip(1 + ws_prefix_len(e)) =~= e.skip(ws_prefix_len(e)));
        assert(trim_start(sp + e) =~= trim_start(e));
        lemma_trim_end_then_start(args);
        lemma_trim_end_idempotent(trim_start(args));
    } else {
        let t = trim(line);
        assert(t =~= head);
        let rest = t.skip(1);
        assert(rest =~= name);
        assert(name + Seq::<char>::empty() =~= name);
        lemma_first_ws_word(name, Seq::<char>::empty());
        assert(rest.take(name.len() as int) =~= name);
        assert(rest.skip(name.len() as int) =~= Seq::<char>::empty());
        lemma_trim_end_then_start(args);
        assert(trim_end(args) =~= Seq::<char>::empty());
        assert(trim(Seq::<char>::empty()) =~= Seq::<char>::empty());
    }
}

/// Splits `/name args` into the command name and its arguments.
pub fn parse_slash_input(input: &str) -> (r: Option<(String, String)>)
    ensures
        match parse_slash(input@) {
            Some(p) => r matches Some(q) && q.0@ == p.0 && q.1@ == p.1,
            None => r is None,
        },
{
    let v = chars_of(input);
    let ghost iv = input@;
    let s = skip_ws(&v, 0, v.len());
    let e = trim_end_index(&v, s, v.len());
    proof {
        assert(iv.subrange(0, iv.len() as int) =~= iv);
        lemma_ws_prefix_bounds(iv);
        assert(iv.skip(s as int) =~= iv.subrange(s as int, iv.len() as int));
        let ts = iv.skip(s as int);
        lemma_ws_suffix_bounds(ts);
        assert(trim(iv) =~= iv.subrange(s as int, e as int));
    }
    if e == s || v[s] != '/' {
        return None;
    }
    let ghost t = iv.subrange(s as int, e as int);
    let ghost rest = t.skip(1);
    let mut n = s + 1;
    proof {
        assert(rest =~= iv.subrange(s + 1, e as int));
    }
    while n < e && !is_whitespace(v[n])
        invariant
            s + 1 <= n <= e <= v@.len(),
            v@ == iv,
            t == iv.subrange(s as int, e as int),
            rest == t.skip(1),
            first_ws(rest) == (n - (s + 1)) + first_ws(iv.subrange(n as int, e as int)),
        decreases e - n,
    {
        proof {
            assert(iv.subrange(n as int, e as int)[0] == iv[n as int]);
            assert(iv.subrange(n as int, e as int).drop_first() =~= iv.subrange(n + 1, e as int));
        }
        n = n + 1;
    }
    proof {
        assert(rest =~= iv.subrange(s + 1, e as int));
        if n < e {
            assert(iv.subrange(n as int, e as int)[0] == iv[n as int]);
        }
        assert(first_ws(rest) == n - (s + 1));
        lemma_first_ws_bounds(rest);
    }
    if n == s + 1 {
        return None;
    }
    let name = string_of(&sub_chars(&v, s + 1, n));
    let a = skip_ws(&v, n, e);
    let b = trim_end_index(&v, a, e);
    proof {
        assert(rest.take(n - (s + 1)) =~= iv.subrange(s + 1, n as int));
        let after = rest.skip(n - (s + 1));
        assert(after =~= iv.subrange(n as int, e as int));
        lemma_ws_prefix_bounds(after);
        assert(after.skip(ws_prefix_len(after)) =~= iv.subrange(a as int, e as int));
        assert(trim(after) =~= iv.subrange(a as int, b as int));
    }
    let args = string_of(&sub_chars(&v, a, b));
    Some((name, args))
}

/// The interface command a name stands for.
pub open spec fn ui_command(name: Seq<char>) -> Option<Command> {
    if name == "new"@ {
        Some(Command::New)
    } else if name == "sessions"@ {
        Some(Command::Session)
    } else if name == "plan"@ {
        Some(Command::Plan)
    } else if name == "models"@ {
        Some(Command::Models)
    } else if name == "compact"@ {
        Some(Command::Compact)
    } else if name == "skills"@ {
        Some(Command::Skills)
    } else if name == "mcp"@ {
        Some(Command::Mcp)
    } else if name == "tasks"@ {
        Some(Command::Tasks)
    } else if name == "yolo"@ {
        Some(Command::Yolo)
    } else if name == "exit"@ || name == "quit"@ || name == "q"@ {
        Some(Command::Exit)
    } else {
        None
    }
}

pub fn match_ui_command(name: &str) -> (r: Option<Command>)
    ensures
        r == ui_command(name@),
{
    if str_eq(name, "new") {
        Some(Command::New)
    } else if str_eq(name, "sessions") {
        Some(Command::Session)
    } else if str_eq(name, "plan") {
        Some(Command::Plan)
    } else if str_eq(name, "models") {
        Some(Command::Models)
    } else if str_eq(name, "compact") {
        Some(Command::Compact)
    } else if str_eq(name, "skills") {
        Some(Command::Skills)
    } else if str_eq(name, "mcp") {
        Some(Command::Mcp)
    } else if str_eq(name, "tasks") {
        Some(Command::Tasks)
    } else if str_eq(name, "yolo") {
        Some(Command::Yolo)
    } else if str_eq(name, "exit") || str_eq(name, "quit") || str_eq(name, "q") {
        Some(Command::Exit)
    } else {
        None
    }
}

/// Matches a line as a command: interface commands first, then the
/// registered prompt commands.
pub fn match_command(input: &str, registry: &CommandRegistry) -> (r: Option<MatchedCommand>)
    ensures
        match parse_slash(input@) {
            None => r is None,
            Some(p) => match ui_command(p.0) {
                Some(c) => r == Some(MatchedCommand::Ui(c)),
                None => if registry_index(registry@, p.0) >= 0 {
                    r matches Some(MatchedCommand::Prompt { name, args }) && name@ == p.0
                        && args@ == p.1
                } else {
                    r is None
                },
            },
        },
{
    let (name, args) = match parse_slash_input(input) {
        Some(p) => p,
        None => return None,
    };
    if let Some(cmd) = match_ui_command(name.as_str()) {
        return Some(MatchedCommand::Ui(cmd));
    }
    if registry.find(name.as_str()).is_some() {
        return Some(MatchedCommand::Prompt { name, args });
    }
    None
}

/// A command list entry as plain values: name, description, interface command.
pub open spec fn entry_view(e: CommandEntry) -> (Seq<char>, Seq<char>, bool) {
    (e.name@, e.description@, e.is_ui)
}

pub open spec fn entries_view(es: Seq<CommandEntry>) -> Seq<(Seq<char>, Seq<char>, bool)> {
    es.map_values(|e: CommandEntry| entry_view(e))
}

/// Names of the interface commands, in their listed order.
pub open spec fn ui_names() -> Seq<Seq<char>> {
    seq![
        "new"@,
        "sessions"@,
        "plan"@,
        "models"@,
        "compact"@,
        "skills"@,
        "mcp"@,
        "tasks"@,
        "yolo"@,
        "exit"@,
    ]
}

/// Descriptions of the interface commands, in the same order.
pub open spec fn ui_descriptions() -> Seq<Seq<char>> {
    seq![
        "新建会话"@,
        "打开会话选择器"@,
        "切换规划模式（只读）"@,
        "切换模型"@,
        "压缩上下文（总结历史对话）"@,
        "查看已加载的 skill"@,
        "查看 MCP 服务器"@,
        "查看子代理执行情况"@,
        "切换 YOLO 模式（跳过权限确认）"@,
        "退出程序"@,
    ]
}

/// The order in which commands are listed; others come after, in the order
/// they had.
pub open spec fn priority_names() -> Seq<Seq<char>> {
    seq![
        "new"@,
        "sessions"@,
        "init"@,
        "plan"@,
        "models"@,
        "compact"@,
        "skills"@,
        "mcp"@,
        "tasks"@,
        "yolo"@,
        "exit"@,
    ]
}

/// Sort key of a command name: its place in `priority_names`, or the
/// largest `usize` for names not listed there.
pub open spec fn priority(name: Seq<char>) -> int {
    let i = index_in(priority_names(), name);
    if i >= 0 {
        i
    } else {
        usize::MAX as int
    }
}

/// The interface commands as list entries.
pub open spec fn ui_entries() -> Seq<(Seq<char>, Seq<char>, bool)> {
    Seq::new(10, |i: int| (ui_names()[i], ui_descriptions()[i], true))
}

/// The registered commands whose names are not interface commands, as list
/// entries, in order.
pub open spec fn prompt_entries(reg: Seq<(Seq<char>, Seq<char>)>) -> Seq<
    (Seq<char>, Seq<char>, bool),
>
    decreases reg.len(),
{
    if reg.len() == 0 {
        Seq::empty()
    } else {
        let rest = prompt_entries(reg.drop_last());
        if ui_names().contains(reg.last().0) {
            rest
        } else {
            rest.push((reg.last().0, reg.last().1, false))
        }
    }
}

/// The entries whose sort key is `key`, in order.
pub open spec fn with_priority(es: Seq<(Seq<char>, Seq<char>, bool)>, key: int) -> Seq<
    (Seq<char>, Seq<char>, bool),
>
    decreases es.len(),
{
    if es.len() == 0 {
        Seq::empty()
    } else {
        let rest = with_priority(es.drop_last(), key);
        if priority(es.last().0) == key {
            rest.push(es.last())
        } else {
            rest
        }
    }
}

/// The `k`-th sort key in increasing order.
pub open spec fn key_at(k: int) -> int {
    if k < 11 {
        k
    } else {
        usize::MAX as int
    }
}

/// The entries with the first `k` sort keys, sorted by key and otherwise in
/// their order (what a stable sort by key gives).
pub open spec fn by_priority_upto(es: Seq<(Seq<char>, Seq<char>, bool)>, k: int) -> Seq<
    (Seq<char>, Seq<char>, bool),
>
    decreases k,
{
    if k <= 0 {
        Seq::empty()
    } else {
        by_priority_upto(es, k - 1) + with_priority(es, key_at(k - 1))
    }
}

/// Whether the name `a` sorts before `b` (`str`'s order: character by
/// character, a proper prefix first).
pub open spec fn name_lt(a: Seq<char>, b: Seq<char>) -> bool
    decreases a.len(),
{
    if b.len() == 0 {
        false
    } else if a.len() == 0 {
        true
    } else if a[0] != b[0] {
        (a[0] as u32) < (b[0] as u32)
    } else {
        name_lt(a.drop_first(), b.drop_first())
    }
}

/// Where `x` goes in `s` (from `i` on): before the first entry whose name
/// sorts after its name, so that equal names keep their order.
pub open spec fn insert_pos(s: Seq<(Seq<char>, Seq<char>, bool)>, x: Seq<char>, i: int) -> int
    decreases s.len() - i,
{
    if i >= s.len() || i < 0 {
        s.len() as int
    } else if name_lt(x, s[i].0) {
        i
    } else {
        insert_pos(s, x, i + 1)
    }
}

/// The first `n` entries of `es` sorted by name, equal names in their order.
pub open spec fn sorted_by_name_upto(es: Seq<(Seq<char>, Seq<char>, bool)>, n: int) -> Seq<
    (Seq<char>, Seq<char>, bool),
>
    decreases n,
{
    if n <= 0 {
        Seq::empty()
    } else {
        let s = sorted_by_name_upto(es, n - 1);
        let p = insert_pos(s, es[n - 1].0, 0);
        s.take(p).push(es[n - 1]) + s.skip(p)
    }
}

pub open spec fn sorted_by_name(es: Seq<(Seq<char>, Seq<char>, bool)>) -> Seq<
    (Seq<char>, Seq<char>, bool),
> {
    sorted_by_name_upto(es, es.len() as int)
}

/// The full command list for a registry: the listed commands by their
/// place in `priority_names`, then the other commands sorted by name.
pub open spec fn all_entries(reg: Seq<(Seq<char>, Seq<char>)>) -> Seq<
    (Seq<char>, Seq<char>, bool),
> {
    let es = ui_entries() + prompt_entries(reg);
    by_priority_upto(es, 11) + sorted_by_name(with_priority(es, usize::MAX as int))
}

proof fn lemma_insert_pos_bounds(s: Seq<(Seq<char>, Seq<char>, bool)>, x: Seq<char>, i: int)
    requires
        0 <= i <= s.len(),
    ensures
        i <= insert_pos(s, x, i) <= s.len(),
        forall|q: int| i <= q < insert_pos(s, x, i) ==> !name_lt(x, #[trigger] s[q].0),
        insert_pos(s, x, i) < s.len() ==> name_lt(x, s[insert_pos(s, x, i)].0),
    decreases s.len() - i,
{
    if i < s.len() && !name_lt(x, s[i].0) {
        lemma_insert_pos_bounds(s, x, i + 1);
    }
}

/// The built-in interface commands.
pub fn slash_commands() -> (r: Vec<SlashCommand>)
    ensures
        r@.len() == 10,
        forall|i: int|
            0 <= i < 10 ==> (#[trigger] r@[i]).name@ == ui_names()[i] && r@[i].description@
                == ui_descriptions()[i],
{
    let mut r: Vec<SlashCommand> = Vec::new();
    r.push(SlashCommand { name: "new", description: "新建会话" });
    r.push(SlashCommand { name: "sessions", description: "打开会话选择器" });
    r.push(SlashCommand { name: "plan", description: "切换规划模式（只读）" });
    r.push(SlashCommand { name: "models", description: "切换模型" });
    r.push(SlashCommand { name: "compact", description: "压缩上下文（总结历史对话）" });
    r.push(SlashCommand { name: "skills", description: "查看已加载的 skill" });
    r.push(SlashCommand { name: "mcp", description: "查看 MCP 服务器" });
    r.push(SlashCommand { name: "tasks", description: "查看子代理执行情况" });
    r.push(SlashCommand { name: "yolo", description: "切换 YOLO 模式（跳过权限确认）" });
    r.push(SlashCommand { name: "exit", description: "退出程序" });
    r
}

fn priority_list() -> (r: Vec<&'static str>)
    ensures
        r@.len() == 11,
        forall|i: int| 0 <= i < 11 ==> (#[trigger] r@[i])@ == priority_names()[i],
{
    let mut r: Vec<&'static str> = Vec::new();
    r.push("new");
    r.push("sessions");
    r.push("init");
    r.push("plan");
    r.push("models");
    r.push("compact");
    r.push("skills");
    r.push("mcp");
    r.push("tasks");
    r.push("yolo");
    r.push("exit");
    r
}

/// The sort key of a command name (see `priority`).
fn priority_of(name: &str) -> (k: usize)
    ensures
        k as int == priority(name@),
{
    let list = priority_list();
    let ghost names = priority_names();
    let mut i: usize = 0;
    proof {
        assert(names.skip(0) =~= names);
    }
    while i < list.len()
        invariant
            i <= 11,
            list@.len() == 11,
            names == priority_names(),
            forall|j: int| 0 <= j < 11 ==> (#[trigger] list@[j])@ == names[j],
            index_in(names, name@) == (if index_in(names.skip(i as int), name@) < 0 {
                -1
            } else {
                index_in(names.skip(i as int), name@) + i
            }),
        decreases 11 - i,
    {
        proof {
            assert(names.skip(i as int)[0] == names[i as int]);
            assert(names.skip(i as int).drop_first() =~= names.skip(i + 1));
        }
        if str_eq(list[i], name) {
            return i;
        }
        i = i + 1;
    }
    proof {
        assert(names.skip(11).len() == 0);
    }
    usize::MAX
}

/// A copy of a command list entry.
fn copy_entry(e: &CommandEntry) -> (r: CommandEntry)
    ensures
        entry_view(r) == entry_view(*e),
{
    CommandEntry {
        name: string_of(&chars_of(e.name.as_str())),
        description: string_of(&chars_of(e.description.as_str())),
        is_ui: e.is_ui,
    }
}

/// Whether `name` is one of the interface command names.
fn is_ui_name(cmds: &Vec<SlashCommand>, name: &str) -> (b: bool)
    requires
        cmds@.len() == 10,
        forall|i: int| 0 <= i < 10 ==> (#[trigger] cmds@[i]).name@ == ui_names()[i],
    ensures
        b == ui_names().contains(name@),
{
    let mut i: usize = 0;
    while i < cmds.len()
        invariant
            i <= 10,
            cmds@.len() == 10,
            forall|j: int| 0 <= j < 10 ==> (#[trigger] cmds@[j]).name@ == ui_names()[j],
            forall|j: int| 0 <= j < i ==> ui_names()[j] != name@,
        decreases 10 - i,
    {
        if str_eq(cmds[i].name, name) {
            proof {
                assert(ui_names()[i as int] == name@);
            }
            return true;
        }
        i = i + 1;
    }
    false
}

/// Whether the entries are in ascending order of name.
pub open spec fn names_ascending(s: Seq<(Seq<char>, Seq<char>, bool)>) -> bool {
    forall|i: int, j: int| 0 <= i < j < s.len() ==> !name_lt(#[trigger] s[j].0, #[trigger] s[i].0)
}

proof fn lemma_name_lt_irreflexive(a: Seq<char>)
    ensures
        !name_lt(a, a),
    decreases a.len(),
{
    if a.len() > 0 {
        lemma_name_lt_irreflexive(a.drop_first());
    }
}

proof fn lemma_name_lt_transitive(a: Seq<char>, b: Seq<char>, c: Seq<char>)
    requires
        name_lt(a, b),
        name_lt(b, c),
    ensures
        name_lt(a, c),
    decreases a.len(),
{
    if a.len() > 0 && b.len() > 0 && c.len() > 0 && a[0] == b[0] && b[0] == c[0] {
        lemma_name_lt_transitive(a.drop_first(), b.drop_first(), c.drop_first());
    }
}

proof fn lemma_sorted_upto_ascending(es: Seq<(Seq<char>, Seq<char>, bool)>, n: int)
    requires
        0 <= n <= es.len(),
    ensures
        names_ascending(sorted_by_name_upto(es, n)),
        sorted_by_name_upto(es, n).len() == n,
    decreases n,
{
    if n > 0 {
        lemma_sorted_upto_ascending(es, n - 1);
        let s = sorted_by_name_upto(es, n - 1);
        let x = es[n - 1];
        let p = insert_pos(s, x.0, 0);
        lemma_insert_pos_bounds(s, x.0, 0);
        let t = s.take(p).push(x) + s.skip(p);
        assert(t == sorted_by_name_upto(es, n));
        assert forall|k: int| 0 <= k < t.len() implies #[trigger] t[k] == (if k < p {
            s[k]
        } else if k == p {
            x
        } else {
            s[k - 1]
        }) by {}
        assert forall|i: int, j: int| 0 <= i < j < t.len() implies !name_lt(
            #[trigger] t[j].0,
            #[trigger] t[i].0,
        ) by {
            if i < p && j == p {
            } else if i == p && j > p {
                lemma_name_lt_irreflexive(s[p].0);
                if name_lt(s[j - 1].0, x.0) {
                    lemma_name_lt_transitive(s[j - 1].0, x.0, s[p].0);
                    if j - 1 > p {
                        assert(!name_lt(s[j - 1].0, s[p].0));
                    }
                }
            } else if i < p && j > p {
                assert(!name_lt(s[j - 1].0, s[i].0));
            } else if i > p {
                assert(!name_lt(s[j - 1].0, s[i - 1].0));
            } else {
                assert(!name_lt(s[j].0, s[i].0));
            }
        }
    }
}

/// The commands that have no place in the priority list come after the
/// ranked ones, in ascending order of name.
pub proof fn law_custom_commands_ascending(reg: Seq<(Seq<char>, Seq<char>)>)
    ensures
        ({
            let es = ui_entries() + prompt_entries(reg);
            let custom = sorted_by_name(with_priority(es, usize::MAX as int));
            &&& all_entries(reg) == by_priority_upto(es, 11) + custom
            &&& names_ascending(custom)
        }),
{
    let es = ui_entries() + prompt_entries(reg);
    let w = with_priority(es, usize::MAX as int);
    lemma_sorted_upto_ascending(w, w.len() as int);
}

proof fn lemma_sorted_push(w: Seq<(Seq<char>, Seq<char>, bool)>, x: (Seq<char>, Seq<char>, bool))
    ensures
        sorted_by_name(w.push(x)) == ({
            let s = sorted_by_name(w);
            let p = insert_pos(s, x.0, 0);
            s.take(p).push(x) + s.skip(p)
        }),
{
    let v = w.push(x);
    assert(v.take(w.len() as int) =~= w);
    lemma_sorted_prefix(v, w, w.len() as int);
}

proof fn lemma_sorted_prefix(
    v: Seq<(Seq<char>, Seq<char>, bool)>,
    w: Seq<(Seq<char>, Seq<char>, bool)>,
    n: int,
)
    requires
        0 <= n <= w.len(),
        w.len() <= v.len(),
        forall|i: int| 0 <= i < w.len() ==> v[i] == w[i],
    ensures
        sorted_by_name_upto(v, n) == sorted_by_name_upto(w, n),
    decreases n,
{
    if n > 0 {
        lemma_sorted_prefix(v, w, n - 1);
    }
}

/// Whether the name `a` sorts before `b` (see `name_lt`).
pub(crate) fn chars_name_lt(a: &[char], b: &[char]) -> (r: bool)
    ensures
        r == name_lt(a@, b@),
{
    let mut i: usize = 0;
    proof {
        assert(a@.skip(0) =~= a@);
        assert(b@.skip(0) =~= b@);
    }
    while i < a.len() && i < b.len() && a[i] == b[i]
        invariant
            i <= a@.len(),
            i <= b@.len(),
            name_lt(a@, b@) == name_lt(a@.skip(i as int), b@.skip(i as int)),
        decreases a@.len() - i,
    {
        proof {
            let x = a@.skip(i as int);
            let y = b@.skip(i as int);
            assert(x.drop_first() =~= a@.skip(i + 1));
            assert(y.drop_first() =~= b@.skip(i + 1));
        }
        i = i + 1;
    }
    if i >= b.len() {
        false
    } else if i >= a.len() {
        true
    } else {
        proof {
            assert(a@.skip(i as int)[0] == a@[i as int]);
            assert(b@.skip(i as int)[0] == b@[i as int]);
        }
        (a[i] as u32) < (b[i] as u32)
    }
}

/// Inserts `e` into `v`, which is sorted by name, after the entries whose
/// names do not sort after it (see `insert_pos`).
fn insert_by_name(v: &mut Vec<CommandEntry>, e: CommandEntry)
    ensures
        ({
            let s = entries_view(old(v)@);
            let p = insert_pos(s, entry_view(e).0, 0);
            entries_view(final(v)@) == s.take(p).push(entry_view(e)) + s.skip(p)
        }),
{
    let ghost s = entries_view(v@);
    let ename = chars_of(e.name.as_str());
    let mut p: usize = 0;
    let mut done = false;
    while !done && p < v.len()
        invariant
            p <= v@.len(),
            s == entries_view(v@),
            ename@ == e.name@,
            insert_pos(s, e.name@, 0) == insert_pos(s, e.name@, p as int),
            done ==> p < v@.len() && name_lt(e.name@, s[p as int].0),
        decreases v@.len() - p, (if done { 0int } else { 1int }),
    {
        proof {
            assert(s[p as int].0 == v@[p as int].name@);
        }
        if chars_name_lt(&ename, &chars_of(v[p].name.as_str())) {
            done = true;
        } else {
            p = p + 1;
        }
    }
    proof {
        assert(insert_pos(s, e.name@, 0) == p as int);
    }
    let ghost ev = entry_view(e);
    v.insert(p, e);
    proof {
        assert(entries_view(v@) =~= s.take(p as int).push(ev) + s.skip(p as int));
    }
}

/// The command list: interface commands and the registered prompt
/// commands that are not interface commands, those listed in
/// `priority_names` in that order, the others after them sorted by name.
pub fn build_all_entries(registry: &CommandRegistry) -> (r: Vec<CommandEntry>)
    ensures
        entries_view(r@) == all_entries(registry@),
{
    let cmds = slash_commands();
    let mut entries: Vec<CommandEntry> = Vec::new();
    let mut i: usize = 0;
    while i < cmds.len()
        invariant
            i <= 10,
            cmds@.len() == 10,
            forall|j: int|
                0 <= j < 10 ==> (#[trigger] cmds@[j]).name@ == ui_names()[j] && cmds@[j].description@
                    == ui_descriptions()[j],
            entries_view(entries@) == ui_entries().take(i as int),
        decreases 10 - i,
    {
        let e = CommandEntry {
            name: cmds[i].name.to_owned(),
            description: cmds[i].description.to_owned(),
            is_ui: true,
        };
        let ghost old_es = entries@;
        entries.push(e);
        proof {
            assert(entries@ == old_es.push(e));
            assert(entries_view(entries@) =~= entries_view(old_es).push(entry_view(e)));
            assert(entry_view(e) == ui_entries()[i as int]);
            assert(ui_entries().take(i + 1) =~= ui_entries().take(i as int).push(
                ui_entries()[i as int],
            ));
        }
        i = i + 1;
    }
    let list = registry.list();
    let ghost reg = registry@;
    let mut j: usize = 0;
    while j < list.len()
        invariant
            j <= list@.len(),
            cmds@.len() == 10,
            forall|k: int| 0 <= k < 10 ==> (#[trigger] cmds@[k]).name@ == ui_names()[k],
            list@.map_values(|p: (String, String)| pair_view(p)) == reg,
            entries_view(entries@) == ui_entries() + prompt_entries(reg.take(j as int)),
        decreases list@.len() - j,
    {
        proof {
            assert(reg.take(j + 1).drop_last() =~= reg.take(j as int));
            assert(reg.take(j + 1).last() == reg[j as int]);
            assert(reg[j as int] == pair_view(list@[j as int]));
        }
        let ghost old_es = entries@;
        let ghost pe = prompt_entries(reg.take(j as int));
        if !is_ui_name(&cmds, list[j].0.as_str()) {
            let e = CommandEntry {
                name: string_of(&chars_of(list[j].0.as_str())),
                description: string_of(&chars_of(list[j].1.as_str())),
                is_ui: false,
            };
            entries.push(e);
            proof {
                assert(entries@ == old_es.push(e));
                assert(entries_view(entries@) =~= entries_view(old_es).push(entry_view(e)));
                assert(prompt_entries(reg.take(j + 1)) == pe.push(entry_view(e)));
                assert(ui_entries() + pe.push(entry_view(e)) =~= (ui_entries() + pe).push(
                    entry_view(e),
                ));
            }
        }
        proof {
            assert(entries_view(entries@) =~= ui_entries() + prompt_entries(reg.take(j + 1)));
        }
        j = j + 1;
    }
    proof {
        assert(reg.take(list@.len() as int) =~= reg);
    }
    let ghost es = entries_view(entries@);
    let mut keys: Vec<usize> = Vec::new();
    let mut m: usize = 0;
    while m < entries.len()
        invariant
            m <= entries@.len(),
            keys@.len() == m,
            forall|t: int| 0 <= t < m ==> keys@[t] as int == priority(#[trigger] entries@[t].name@),
        decreases entries@.len() - m,
    {
        keys.push(priority_of(entries[m].name.as_str()));
        m = m + 1;
    }
    let mut out: Vec<CommandEntry> = Vec::new();
    let mut k: usize = 0;
    while k < 11
        invariant
            k <= 11,
            es == entries_view(entries@),
            keys@.len() == entries@.len(),
            forall|t: int|
                0 <= t < entries@.len() ==> keys@[t] as int == priority(#[trigger] entries@[t].name@),
            entries_view(out@) == by_priority_upto(es, k as int),
        decreases 11 - k,
    {
        let key: usize = k;
        let ghost before = entries_view(out@);
        let mut t: usize = 0;
        while t < entries.len()
            invariant
                t <= entries@.len(),
                k < 11,
                key as int == key_at(k as int),
                es == entries_view(entries@),
                keys@.len() == entries@.len(),
                forall|q: int|
                    0 <= q < entries@.len() ==> keys@[q] as int == priority(
                        #[trigger] entries@[q].name@,
                    ),
                entries_view(out@) == before + with_priority(es.take(t as int), key as int),
            decreases entries@.len() - t,
        {
            proof {
                assert(es.take(t + 1).drop_last() =~= es.take(t as int));
                assert(es.take(t + 1).last() == es[t as int]);
                assert(es[t as int] == entry_view(entries@[t as int]));
            }
            if keys[t] == key {
                let c = copy_entry(&entries[t]);
                let ghost old_out = out@;
                out.push(c);
                proof {
                    assert(out@ == old_out.push(c));
                    assert(entries_view(out@) =~= entries_view(old_out).push(entry_view(c)));
                    assert(with_priority(es.take(t + 1), key as int) == with_priority(
                        es.take(t as int),
                        key as int,
                    ).push(es[t as int]));
                    assert(entries_view(out@) =~= before + with_priority(es.take(t + 1), key as int));
                }
            } else {
                proof {
                    assert(entries_view(out@) =~= before + with_priority(es.take(t + 1), key as int));
                }
            }
            t = t + 1;
        }
        proof {
            assert(es.take(entries@.len() as int) =~= es);
        }
        k = k + 1;
    }
    let ghost ranked = entries_view(out@);
    let ghost rest = with_priority(es, usize::MAX as int);
    let mut custom: Vec<CommandEntry> = Vec::new();
    let mut t: usize = 0;
    while t < entries.len()
        invariant
            t <= entries@.len(),
            es == entries_view(entries@),
            keys@.len() == entries@.len(),
            forall|q: int|
                0 <= q < entries@.len() ==> keys@[q] as int == priority(#[trigger] entries@[q].name@),
            entries_view(custom@) == sorted_by_name(with_priority(es.take(t as int), usize::MAX as int)),
        decreases entries@.len() - t,
    {
        proof {
            assert(es.take(t + 1).drop_last() =~= es.take(t as int));
            assert(es.take(t + 1).last() == es[t as int]);
            assert(es[t as int] == entry_view(entries@[t as int]));
        }
        if keys[t] == usize::MAX {
            let c = copy_entry(&entries[t]);
            insert_by_name(&mut custom, c);
            proof {
                let w = with_priority(es.take(t as int), usize::MAX as int);
                assert(with_priority(es.take(t + 1), usize::MAX as int) == w.push(es[t as int]));
                assert(w.push(es[t as int]).take(w.len() as int) =~= w);
                lemma_sorted_push(w, es[t as int]);
            }
        } else {
            proof {
                assert(with_priority(es.take(t + 1), usize::MAX as int) == with_priority(
                    es.take(t as int),
                    usize::MAX as int,
                ));
            }
        }
        t = t + 1;
    }
    proof {
        assert(es.take(entries@.len() as int) =~= es);
    }
    let ghost cv = entries_view(custom@);
    let mut u: usize = 0;
    while u < custom.len()
        invariant
            u <= custom@.len(),
            cv == entries_view(custom@),
            entries_view(out@) == ranked + cv.take(u as int),
        decreases custom@.len() - u,
    {
        let c = copy_entry(&custom[u]);
        let ghost o0 = out@;
        out.push(c);
        proof {
            assert(entries_view(out@) =~= entries_view(o0).push(entry_view(c)));
            assert(cv.take(u + 1) =~= cv.take(u as int).push(cv[u as int]));
        }
        u = u + 1;
    }
    proof {
        assert(cv.take(custom@.len() as int) =~= cv);
    }
    out
}

/// Indices of the entries whose names start with `p`, among the first `n`.
pub open spec fn completions_upto(names: Seq<Seq<char>>, p: Seq<char>, n: int) -> Seq<usize>
    decreases n,
{
    if n <= 0 {
        Seq::empty()
    } else if starts_with(names[n - 1], p) {
        completions_upto(names, p, n - 1).push((n - 1) as usize)
    } else {
        completions_upto(names, p, n - 1)
    }
}

proof fn lemma_completions_bound(names: Seq<Seq<char>>, p: Seq<char>, n: int)
    requires
        0 <= n,
    ensures
        forall|j: int|
            0 <= j < completions_upto(names, p, n).len() ==> #[trigger] completions_upto(
                names,
                p,
                n,
            )[j] < n,
    decreases n,
{
    if n > 0 {
        lemma_completions_bound(names, p, n - 1);
        let prev = completions_upto(names, p, n - 1);
        let cur = completions_upto(names, p, n);
        assert forall|j: int| 0 <= j < cur.len() implies #[trigger] cur[j] < n by {
            if starts_with(names[n - 1], p) {
                assert(cur == prev.push((n - 1) as usize));
                if j < prev.len() {
                    assert(cur[j] == prev[j]);
                }
            } else {
                assert(cur == prev);
            }
        }
    }
}

pub open spec fn entry_names(es: Seq<CommandEntry>) -> Seq<Seq<char>> {
    es.map_values(|e: CommandEntry| e.name@)
}

/// Indices of the entries whose names start with `prefix`, in order (all
/// of them for an empty prefix).
pub fn filter_completions(entries: &[CommandEntry], prefix: &str) -> (r: Vec<usize>)
    ensures
        r@ == completions_upto(entry_names(entries@), prefix@, entries@.len() as int),
{
    let ghost names = entry_names(entries@);
    let p = chars_of(prefix);
    let mut r: Vec<usize> = Vec::new();
    let mut i: usize = 0;
    if p.len() == 0 {
        while i < entries.len()
            invariant
                i <= entries@.len(),
                p@.len() == 0,
                names == entry_names(entries@),
                r@ == completions_upto(names, p@, i as int),
            decreases entries@.len() - i,
        {
            proof {
                assert(names[i as int].take(0) =~= p@);
            }
            r.push(i);
            i = i + 1;
        }
        return r;
    }
    while i < entries.len()
        invariant
            i <= entries@.len(),
            p@ == prefix@,
            names == entry_names(entries@),
            r@ == completions_upto(names, p@, i as int),
        decreases entries@.len() - i,
    {
        let name = chars_of(entries[i].name.as_str());
        if chars_start_with(&name, &p) {
            r.push(i);
        }
        i = i + 1;
    }
    r
}

/// The command name being typed, for completion: for a line that starts
/// with `/`, the text after it without leading white space, up to the first
/// white space.
pub open spec fn suggestion_prefix(text: Seq<char>) -> Option<Seq<char>> {
    if text.len() == 0 || text[0] != '/' {
        None
    } else {
        let prefix = crate::text::trim_start(text.skip(1));
        Some(prefix.take(first_ws(prefix)))
    }
}

/// The command name being typed (see `suggestion_prefix`).
pub fn command_prefix(text: &str) -> (r: Option<String>)
    ensures
        match suggestion_prefix(text@) {
            Some(p) => r matches Some(s) && s@ == p,
            None => r is None,
        },
{
    let v = chars_of(text);
    if v.len() == 0 || v[0] != '/' {
        return None;
    }
    let ghost t = text@;
    let a = skip_ws(&v, 1, v.len());
    let ghost prefix = crate::text::trim_start(t.skip(1));
    proof {
        assert(t.subrange(1, t.len() as int) =~= t.skip(1));
        lemma_ws_prefix_bounds(t.skip(1));
        assert(prefix =~= t.subrange(a as int, t.len() as int));
    }
    let mut n = a;
    while n < v.len() && !is_whitespace(v[n])
        invariant
            a <= n <= v@.len(),
            v@ == t,
            prefix == t.subrange(a as int, t.len() as int),
            first_ws(prefix) == (n - a) + first_ws(t.subrange(n as int, t.len() as int)),
        decreases v@.len() - n,
    {
        proof {
            assert(t.subrange(n as int, t.len() as int)[0] == t[n as int]);
            assert(t.subrange(n as int, t.len() as int).drop_first() =~= t.subrange(
                n + 1,
                t.len() as int,
            ));
        }
        n = n + 1;
    }
    proof {
        if n < v.len() {
            assert(t.subrange(n as int, t.len() as int)[0] == t[n as int]);
        }
        assert(prefix.take(n - a) =~= t.subrange(a as int, n as int));
    }
    Some(string_of(&sub_chars(&v, a, n)))
}

/// Completion suggestions under the input line.
pub struct CommandSuggestion {
    pub show: bool,
    pub items: Vec<CommandEntry>,
    pub selected: usize,
}

/// The entries at the given indices.
pub open spec fn pick(es: Seq<(Seq<char>, Seq<char>, bool)>, idx: Seq<usize>) -> Seq<
    (Seq<char>, Seq<char>, bool),
> {
    idx.map_values(|i: usize| es[i as int])
}

impl CommandSuggestion {
    pub fn new() -> (r: Self)
        ensures
            !r.show,
            r.items@.len() == 0,
            r.selected == 0,
    {
        CommandSuggestion { show: false, items: Vec::new(), selected: 0 }
    }

    /// Recomputes the suggestions for the input line `text`: the entries
    /// whose names start with the command being typed, shown when there are
    /// any (with the first selected).
    pub fn refresh(&mut self, text: &str, entries: &[CommandEntry])
        ensures
            match suggestion_prefix(text@) {
                Some(p) => {
                    let idx = completions_upto(entry_names(entries@), p, entries@.len() as int);
                    &&& entries_view(final(self).items@) == pick(entries_view(entries@), idx)
                    &&& final(self).show == (idx.len() > 0)
                    &&& final(self).selected == (if idx.len() > 0 {
                        0
                    } else {
                        old(self).selected
                    })
                },
                None => !final(self).show && final(self).items@.len() == 0 && final(self).selected
                    == old(self).selected,
            },
    {
        match command_prefix(text) {
            Some(prefix) => {
                let indices = filter_completions(entries, prefix.as_str());
                let ghost p = prefix@;
                proof {
                    lemma_completions_bound(entry_names(entries@), p, entries@.len() as int);
                }
                let mut items: Vec<CommandEntry> = Vec::new();
                let mut k: usize = 0;
                while k < indices.len()
                    invariant
                        k <= indices@.len(),
                        indices@ == completions_upto(
                            entry_names(entries@),
                            p,
                            entries@.len() as int,
                        ),
                        forall|j: int| 0 <= j < indices@.len() ==> #[trigger] indices@[j] < entries@.len(),
                        entries_view(items@) == pick(entries_view(entries@), indices@.take(k as int)),
                    decreases indices@.len() - k,
                {
                    let ghost i0 = items@;
                    let c = copy_entry(&entries[indices[k]]);
                    items.push(c);
                    proof {
                        assert(indices@.take(k + 1) =~= indices@.take(k as int).push(indices@[k as int]));
                        assert(entries_view(items@) =~= entries_view(i0).push(entry_view(c)));
                        assert(pick(entries_view(entries@), indices@.take(k + 1)) =~= pick(
                            entries_view(entries@),
                            indices@.take(k as int),
                        ).push(entries_view(entries@)[indices@[k as int] as int]));
                    }
                    k = k + 1;
                }
                proof {
                    assert(indices@.take(indices@.len() as int) =~= indices@);
                }
                let nonempty = items.len() > 0;
                self.items = items;
                if nonempty {
                    self.show = true;
                    self.selected = 0;
                } else {
                    self.show = false;
                }
            },
            None => {
                self.show = false;
                self.items = Vec::new();
            },
        }
    }
}

/// What choosing a suggestion does: the input line becomes `/name ` and,
/// for an interface command, `/name` is submitted at once.
#[derive(Debug, Clone)]
pub struct SuggestionChoice {
    pub input_text: String,
    pub submit: Option<String>,
}

impl CommandSuggestion {
    /// Chooses the selected suggestion, when there is one; the list is
    /// hidden and emptied then.
    pub fn take_selected(&mut self) -> (r: Option<SuggestionChoice>)
        ensures
            old(self).selected >= old(self).items@.len() ==> r is None && final(self).show == old(
                self,
            ).show && final(self).items@ == old(self).items@ && final(self).selected == old(
                self,
            ).selected,
            old(self).selected < old(self).items@.len() ==> {
                let e = old(self).items@[old(self).selected as int];
                &&& r matches Some(c) && c.input_text@ == seq!['/'] + e.name@ + seq![' ']
                    && (if e.is_ui {
                    c.submit matches Some(t) && t@ == seq!['/'] + e.name@
                } else {
                    c.submit is None
                })
                &&& !final(self).show
                &&& final(self).items@.len() == 0
                &&& final(self).selected == old(self).selected
            },
    {
        if self.selected >= self.items.len() {
            return None;
        }
        let e = &self.items[self.selected];
        let mut head: Vec<char> = Vec::new();
        head.push('/');
        let ghost h0 = head@;
        extend_chars(&mut head, &chars_of(e.name.as_str()));
        proof {
            assert(h0 =~= seq!['/']);
        }
        let submit = if e.is_ui {
            Some(string_of(&head))
        } else {
            None
        };
        let mut text = head;
        text.push(' ');
        let choice = SuggestionChoice { input_text: string_of(&text), submit };
        self.show = false;
        self.items = Vec::new();
        Some(choice)
    }
}

// ===== Carrying out a matched command =====

/// What a matched command line leads to.
#[derive(Debug, Clone)]
pub enum CommandAction {
    /// Carry out the interface command.
    Run(Command),
    /// `/init` in plan mode: it could not write its file, so it is refused
    /// with `init_blocked_notice`.
    InitBlockedInPlanMode,
    /// Send the prompt command, rendered with its arguments, as a message.
    SendPrompt { name: String, args: String },
    /// A prompt command that is not registered: nothing happens.
    Ignore,
}

/// The note shown when `/init` is refused in plan mode.
pub fn init_blocked_notice() -> (r: String)
    ensures
        r@ == "当前为只读规划模式，无法创建 AGENTS.md。请先 /plan 退出规划模式，再运行 /init。"@,
{
    string_of(&chars_of("当前为只读规划模式，无法创建 AGENTS.md。请先 /plan 退出规划模式，再运行 /init。"))
}

/// What a matched command line leads to: an interface command runs; a
/// registered prompt command is sent, except `/init` in plan mode, which is
/// refused; an unregistered one is ignored.
pub fn command_action(matched: MatchedCommand, registry: &CommandRegistry, plan_mode: bool) -> (r:
    CommandAction)
    ensures
        match matched {
            MatchedCommand::Ui(c) => r matches CommandAction::Run(x) && x == c,
            MatchedCommand::Prompt { name, args } => if registry_index(registry@, name@) == -1 {
                r is Ignore
            } else if name@ == "init"@ && plan_mode {
                r is InitBlockedInPlanMode
            } else {
                r matches CommandAction::SendPrompt { name: n, args: a } && n@ == name@ && a@
                    == args@
            },
        },
{
    match matched {
        MatchedCommand::Ui(c) => CommandAction::Run(c),
        MatchedCommand::Prompt { name, args } => {
            match registry.find(name.as_str()) {
                None => CommandAction::Ignore,
                Some(_) => {
                    if plan_mode && str_eq(name.as_str(), "init") {
                        CommandAction::InitBlockedInPlanMode
                    } else {
                        CommandAction::SendPrompt { name, args }
                    }
                },
            }
        },
    }
}

} // verus!

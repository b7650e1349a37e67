//! What the MCP server panel shows: where the dialog stands on the screen,
//! its title, the window of servers that fits in it, and the text of each
//! line; and the same for the page of one server's tools, resources and
//! prompts. Colours are given as a tone per line; the cells a line leaves
//! empty are not part of its text.

use vstd::prelude::*;
use crate::model_picker::{wrap_input, wrapped};
use crate::text::{chars_of, decimal, decimal_chars, extend_chars, str_eq, string_of};

verus! {

/// What the panel reads of one configured MCP server.
pub struct McpServerView {
    pub name: String,
    pub transport: String,
    pub connected: bool,
    pub server_name: String,
    pub server_version: String,
    pub tools: Vec<String>,
    pub resource_count: usize,
    pub prompt_count: usize,
    pub error: Option<String>,
    /// Name and description of each resource.
    pub resources: Vec<(String, String)>,
    /// Name and description of each prompt.
    pub prompts: Vec<(String, String)>,
}

/// A rectangle of terminal cells.
#[derive(Clone, Copy, PartialEq, Eq, Debug, Structural)]
pub struct DialogRect {
    pub x: u16,
    pub y: u16,
    pub width: u16,
    pub height: u16,
}

/// How a line is coloured.
#[derive(Clone, Copy, PartialEq, Eq, Debug, Structural)]
pub enum LineTone {
    Plain,
    Warning,
    Hint,
    Muted,
    Dim,
    Failed,
    Connecting,
    Picked,
    Accent,
    ToolsHeading,
    ResourcesHeading,
    PromptsHeading,
}

/// One line of a panel: its text, its colour, and whether it stands on the
/// selection's background.
pub struct PanelLine {
    pub text: String,
    pub tone: LineTone,
    pub selected: bool,
}

impl View for PanelLine {
    type V = (Seq<char>, LineTone, bool);

    open spec fn view(&self) -> (Seq<char>, LineTone, bool) {
        (self.text@, self.tone, self.selected)
    }
}

/// The lines of a panel as plain values.
pub open spec fn lines_view(v: Seq<PanelLine>) -> Seq<(Seq<char>, LineTone, bool)> {
    v.map_values(|l: PanelLine| l@)
}

/// What the server list shows.
pub struct ViewerLayout {
    pub dialog: DialogRect,
    pub title: String,
    pub first: usize,
    pub lines: Vec<PanelLine>,
}

/// What the page of one server shows.
pub struct DetailLayout {
    pub dialog: DialogRect,
    pub title: String,
    pub scroll: usize,
    pub lines: Vec<PanelLine>,
}

// ===== Geometry =====

/// The dialog is at most 76 cells wide.
pub open spec fn dialog_width(area_w: nat) -> nat {
    if area_w < 76 {
        area_w
    } else {
        76
    }
}

/// Eight tenths of the height left after four rows, kept between 20 and 48.
pub open spec fn dialog_height(area_h: nat) -> nat {
    let base: nat = (if area_h >= 4 {
        (area_h - 4) as nat
    } else {
        0
    }) * 8 / 10;
    if base < 20 {
        20
    } else if base > 48 {
        48
    } else {
        base
    }
}

/// The dialog, centred in an area of the given size (at the top where it is
/// taller than the area).
pub open spec fn dialog_rect(area_w: nat, area_h: nat) -> DialogRect {
    let w = dialog_width(area_w);
    let h = dialog_height(area_h);
    DialogRect {
        x: ((area_w - w) / 2) as u16,
        y: (if area_h >= h {
            (area_h - h) / 2
        } else {
            0
        }) as u16,
        width: w as u16,
        height: h as u16,
    }
}

/// The rows left for content inside the border, above the two rows of help.
pub open spec fn content_height(area_h: nat) -> nat {
    (dialog_height(area_h) - 4) as nat
}

/// The columns inside the border.
pub open spec fn content_width(area_w: nat) -> nat {
    if dialog_width(area_w) >= 2 {
        (dialog_width(area_w) - 2) as nat
    } else {
        0
    }
}

/// The dialog's rectangle in an area of the given size.
pub fn dialog_rect_of(area_w: u16, area_h: u16) -> (r: DialogRect)
    ensures
        r == dialog_rect(area_w as nat, area_h as nat),
        r.height >= 20,
{
    let w: u16 = if area_w < 76 {
        area_w
    } else {
        76
    };
    let left: u32 = if area_h >= 4 {
        (area_h - 4) as u32
    } else {
        0
    };
    let base: u32 = left * 8 / 10;
    let h: u16 = if base < 20 {
        20
    } else if base > 48 {
        48
    } else {
        base as u16
    };
    let y: u16 = if area_h >= h {
        (area_h - h) / 2
    } else {
        0
    };
    DialogRect { x: (area_w - w) / 2, y, width: w, height: h }
}

// ===== The server list =====

/// How many of the servers are connected.
pub open spec fn count_connected(s: Seq<McpServerView>) -> nat
    decreases s.len(),
{
    if s.len() == 0 {
        0
    } else {
        count_connected(s.drop_last()) + (if s.last().connected {
            1nat
        } else {
            0nat
        })
    }
}

/// The list's title: connected servers over all servers.
pub open spec fn viewer_title(connected: nat, total: nat) -> Seq<char> {
    " MCP 服务器 ("@ + decimal(connected) + "/"@ + decimal(total) + ") "@
}

/// Each server takes four rows; when the selection lies past the rows that
/// fit, the list starts half a window before it.
pub open spec fn first_visible(selected: nat, content_h: nat) -> nat {
    let visible = content_h / 4;
    if selected >= visible {
        (selected - visible / 2) as nat
    } else {
        0
    }
}

/// The marker in front of the selected entry.
pub open spec fn selector(sel: bool) -> Seq<char> {
    if sel {
        "▸ "@
    } else {
        "  "@
    }
}

/// A connected server is marked with a dot, any other with a cross.
pub open spec fn status_icon(connected: bool) -> Seq<char> {
    if connected {
        "●"@
    } else {
        "✗"@
    }
}

/// The first row of an entry: marker, status, name and transport.
pub open spec fn header_text(s: McpServerView, sel: bool) -> Seq<char> {
    selector(sel) + status_icon(s.connected) + " "@ + s.name@ + " ["@ + s.transport@ + "]"@
}

/// The second row: the name and version the server reported, or whether it
/// is connected.
pub open spec fn detail_text(s: McpServerView) -> Seq<char> {
    if s.connected {
        if s.server_name@.len() == 0 {
            "已连接"@
        } else {
            s.server_name@ + " "@ + s.server_version@
        }
    } else {
        "未连接"@
    }
}

/// The strings of `ls` with `sep` between each two.
pub open spec fn joined_with(ls: Seq<Seq<char>>, sep: Seq<char>) -> Seq<char>
    decreases ls.len(),
{
    if ls.len() == 0 {
        Seq::empty()
    } else if ls.len() == 1 {
        ls[0]
    } else {
        joined_with(ls.drop_last(), sep) + sep + ls.last()
    }
}

/// The names of a server's tools.
pub open spec fn tool_names(s: McpServerView) -> Seq<Seq<char>> {
    s.tools@.map_values(|t: String| t@)
}

/// The third row of a connected server: the number of tools, of resources
/// and of prompts (those two only when there are any), then the tools'
/// names.
pub open spec fn counts_text(s: McpServerView) -> Seq<char> {
    "工具: "@ + decimal(s.tools@.len()) + (if s.resource_count > 0 {
        "  ·  资源: "@ + decimal(s.resource_count as nat)
    } else {
        Seq::empty()
    }) + (if s.prompt_count > 0 {
        "  ·  提示: "@ + decimal(s.prompt_count as nat)
    } else {
        Seq::empty()
    }) + (if s.tools@.len() > 0 {
        "  ·  "@ + joined_with(tool_names(s), ", "@)
    } else {
        Seq::empty()
    })
}

/// The third row: the counts of a connected server, else its error (in the
/// colour of a pending connection while it reads `连接中...`), else nothing.
pub open spec fn status_row(s: McpServerView, sel: bool) -> (Seq<char>, LineTone, bool) {
    if s.connected {
        ("  "@ + counts_text(s), LineTone::Dim, sel)
    } else {
        match s.error {
            Some(e) => (
                "  "@ + e@,
                if e@ == "连接中..."@ {
                    LineTone::Connecting
                } else {
                    LineTone::Failed
                },
                sel,
            ),
            None => (Seq::empty(), LineTone::Plain, sel),
        }
    }
}

/// The four rows of one server: header, detail, status, and a blank row.
pub open spec fn entry_rows(s: McpServerView, sel: bool) -> Seq<(Seq<char>, LineTone, bool)> {
    seq![
        (header_text(s, sel), LineTone::Plain, sel),
        ("  "@ + detail_text(s), LineTone::Dim, sel),
        status_row(s, sel),
        (Seq::empty(), LineTone::Plain, false),
    ]
}

/// The rows of the servers from index `from` up to `to`.
pub open spec fn rows_upto(servers: Seq<McpServerView>, selected: int, from: int, to: int) -> Seq<
    (Seq<char>, LineTone, bool),
>
    decreases to - from,
{
    if to <= from || to > servers.len() {
        Seq::empty()
    } else {
        rows_upto(servers, selected, from, to - 1) + entry_rows(servers[to - 1], to - 1 == selected)
    }
}

/// The rows the list shows: those of the servers from the first visible
/// one on, as many as fit.
pub open spec fn server_rows(servers: Seq<McpServerView>, selected: nat, content_h: nat) -> Seq<
    (Seq<char>, LineTone, bool),
> {
    let r = rows_upto(
        servers,
        selected as int,
        first_visible(selected, content_h) as int,
        servers.len() as int,
    );
    if r.len() <= content_h {
        r
    } else {
        r.take(content_h as int)
    }
}

/// With no server configured, the list says where to configure one and
/// shows an example.
pub open spec fn no_server_rows(config_path: Seq<char>) -> Seq<(Seq<char>, LineTone, bool)> {
    seq![
        (Seq::empty(), LineTone::Plain, false),
        ("  未配置任何 MCP 服务器"@, LineTone::Warning, false),
        (Seq::empty(), LineTone::Plain, false),
        ("  在以下文件中配置 MCP 服务器："@, LineTone::Hint, false),
        ("    "@ + config_path, LineTone::Muted, false),
        (Seq::empty(), LineTone::Plain, false),
        ("  示例："@, LineTone::Hint, false),
        ("  [mcp_servers.context7]"@, LineTone::Muted, false),
        ("  command = \"npx\""@, LineTone::Muted, false),
        ("  args = [\"-y\", \"@upstash/context7-mcp\"]"@, LineTone::Muted, false),
        (Seq::empty(), LineTone::Plain, false),
        ("  [mcp_servers.remote]"@, LineTone::Muted, false),
        ("  url = \"https://example.com/mcp\""@, LineTone::Muted, false),
    ]
}

/// The rows of the server list.
pub open spec fn viewer_lines(
    servers: Seq<McpServerView>,
    selected: nat,
    content_h: nat,
    config_path: Seq<char>,
) -> Seq<(Seq<char>, LineTone, bool)> {
    if servers.len() == 0 {
        no_server_rows(config_path)
    } else {
        server_rows(servers, selected, content_h)
    }
}

fn push_line(out: &mut Vec<PanelLine>, text: Vec<char>, tone: LineTone, sel: bool)
    ensures
        lines_view(final(out)@) == lines_view(old(out)@).push((text@, tone, sel)),
{
    let ghost before = lines_view(out@);
    out.push(PanelLine { text: string_of(&text), tone, selected: sel });
    proof {
        assert(lines_view(out@) =~= before.push((text@, tone, sel)));
    }
}

fn push_text(out: &mut Vec<PanelLine>, t: &str, tone: LineTone)
    ensures
        lines_view(final(out)@) == lines_view(old(out)@).push((t@, tone, false)),
{
    push_line(out, chars_of(t), tone, false);
}

/// Appends the names with `sep` between each two.
fn extend_joined(out: &mut Vec<char>, names: &Vec<String>, sep: &str)
    ensures
        final(out)@ == old(out)@ + joined_with(names@.map_values(|t: String| t@), sep@),
{
    let ghost o0 = out@;
    let ghost ls = names@.map_values(|t: String| t@);
    let mut i: usize = 0;
    while i < names.len()
        invariant
            i <= names@.len(),
            ls == names@.map_values(|t: String| t@),
            out@ == o0 + joined_with(ls.take(i as int), sep@),
        decreases names@.len() - i,
    {
        let ghost prev = out@;
        if i > 0 {
            extend_chars(out, &chars_of(sep));
        }
        extend_chars(out, &chars_of(names[i].as_str()));
        proof {
            let t = ls.take(i + 1);
            assert(t.drop_last() =~= ls.take(i as int));
            assert(t.last() == ls[i as int]);
            assert(ls[i as int] == names@[i as int]@);
            if i == 0 {
                assert(ls.take(0) =~= Seq::<Seq<char>>::empty());
                assert(out@ =~= o0 + joined_with(t, sep@));
            } else {
                assert(out@ =~= o0 + joined_with(t, sep@));
            }
        }
        i = i + 1;
    }
    proof {
        assert(ls.take(names@.len() as int) =~= ls);
    }
}

fn header_chars(s: &McpServerView, sel: bool) -> (h: Vec<char>)
    ensures
        h@ == header_text(*s, sel),
{
    let mut h: Vec<char> = if sel {
        chars_of("▸ ")
    } else {
        chars_of("  ")
    };
    if s.connected {
        extend_chars(&mut h, &chars_of("●"));
    } else {
        extend_chars(&mut h, &chars_of("✗"));
    }
    extend_chars(&mut h, &chars_of(" "));
    extend_chars(&mut h, &chars_of(s.name.as_str()));
    extend_chars(&mut h, &chars_of(" ["));
    extend_chars(&mut h, &chars_of(s.transport.as_str()));
    extend_chars(&mut h, &chars_of("]"));
    assert(h@ =~= header_text(*s, sel));
    h
}

fn detail_chars(s: &McpServerView) -> (d: Vec<char>)
    ensures
        d@ == "  "@ + detail_text(*s),
{
    let mut d = chars_of("  ");
    if s.connected {
        let sn = chars_of(s.server_name.as_str());
        if sn.len() == 0 {
            extend_chars(&mut d, &chars_of("已连接"));
        } else {
            extend_chars(&mut d, &sn);
            extend_chars(&mut d, &chars_of(" "));
            extend_chars(&mut d, &chars_of(s.server_version.as_str()));
        }
    } else {
        extend_chars(&mut d, &chars_of("未连接"));
    }
    assert(d@ =~= "  "@ + detail_text(*s));
    d
}

fn counts_chars(s: &McpServerView) -> (c: Vec<char>)
    ensures
        c@ == "  "@ + counts_text(*s),
{
    let mut c = chars_of("  ");
    extend_chars(&mut c, &chars_of("工具: "));
    extend_chars(&mut c, &decimal_chars(s.tools.len()));
    if s.resource_count > 0 {
        extend_chars(&mut c, &chars_of("  ·  资源: "));
        extend_chars(&mut c, &decimal_chars(s.resource_count));
    }
    if s.prompt_count > 0 {
        extend_chars(&mut c, &chars_of("  ·  提示: "));
        extend_chars(&mut c, &decimal_chars(s.prompt_count));
    }
    if s.tools.len() > 0 {
        extend_chars(&mut c, &chars_of("  ·  "));
        extend_joined(&mut c, &s.tools, ", ");
    }
    assert(c@ =~= "  "@ + counts_text(*s));
    c
}

fn status_chars(s: &McpServerView, sel: bool) -> (r: (Vec<char>, LineTone))
    ensures
        (r.0@, r.1, sel) == status_row(*s, sel),
{
    if s.connected {
        (counts_chars(s), LineTone::Dim)
    } else {
        match &s.error {
            Some(e) => {
                let mut c = chars_of("  ");
                extend_chars(&mut c, &chars_of(e.as_str()));
                let tone = if str_eq(e.as_str(), "连接中...") {
                    LineTone::Connecting
                } else {
                    LineTone::Failed
                };
                (c, tone)
            },
            None => (Vec::new(), LineTone::Plain),
        }
    }
}

/// Appends the four rows of one server.
fn push_entry(out: &mut Vec<PanelLine>, s: &McpServerView, sel: bool)
    ensures
        lines_view(final(out)@) == lines_view(old(out)@) + entry_rows(*s, sel),
{
    let ghost l0 = lines_view(out@);
    let h = header_chars(s, sel);
    push_line(out, h, LineTone::Plain, sel);
    let d = detail_chars(s);
    push_line(out, d, LineTone::Dim, sel);
    let (c, tone) = status_chars(s, sel);
    push_line(out, c, tone, sel);
    push_line(out, Vec::new(), LineTone::Plain, false);
    proof {
        assert(lines_view(out@) =~= l0 + entry_rows(*s, sel));
    }
}

/// What the server list shows in an area of `area_w` by `area_h` cells,
/// with the entry at `selected` highlighted: the dialog, its title, the
/// first entry shown, and the rows (when no server is configured, where to
/// configure one, under `config_path`).
pub fn mcp_viewer_view(
    area_w: u16,
    area_h: u16,
    servers: &[McpServerView],
    selected: usize,
    config_path: &str,
) -> (v: ViewerLayout)
    ensures
        v.dialog == dialog_rect(area_w as nat, area_h as nat),
        v.title@ == viewer_title(count_connected(servers@), servers@.len()),
        v.first == first_visible(selected as nat, content_height(area_h as nat)),
        lines_view(v.lines@) == viewer_lines(
            servers@,
            selected as nat,
            content_height(area_h as nat),
            config_path@,
        ),
{
    let dialog = dialog_rect_of(area_w, area_h);
    let ch: usize = (dialog.height - 4) as usize;
    assert(ch == content_height(area_h as nat));

    let mut connected: usize = 0;
    let mut i: usize = 0;
    while i < servers.len()
        invariant
            i <= servers@.len(),
            connected <= i,
            connected == count_connected(servers@.take(i as int)),
        decreases servers@.len() - i,
    {
        proof {
            assert(servers@.take(i + 1).drop_last() =~= servers@.take(i as int));
        }
        if servers[i].connected {
            connected = connected + 1;
        }
        i = i + 1;
    }
    assert(servers@.take(servers@.len() as int) =~= servers@);
    let mut t = chars_of(" MCP 服务器 (");
    extend_chars(&mut t, &decimal_chars(connected));
    extend_chars(&mut t, &chars_of("/"));
    extend_chars(&mut t, &decimal_chars(servers.len()));
    extend_chars(&mut t, &chars_of(") "));

    let visible = ch / 4;
    let first = if selected >= visible {
        selected - visible / 2
    } else {
        0
    };

    let mut lines: Vec<PanelLine> = Vec::new();
    if servers.len() == 0 {
        push_line(&mut lines, Vec::new(), LineTone::Plain, false);
        push_text(&mut lines, "  未配置任何 MCP 服务器", LineTone::Warning);
        push_line(&mut lines, Vec::new(), LineTone::Plain, false);
        push_text(&mut lines, "  在以下文件中配置 MCP 服务器：", LineTone::Hint);
        let mut p = chars_of("    ");
        extend_chars(&mut p, &chars_of(config_path));
        push_line(&mut lines, p, LineTone::Muted, false);
        push_line(&mut lines, Vec::new(), LineTone::Plain, false);
        push_text(&mut lines, "  示例：", LineTone::Hint);
        push_text(&mut lines, "  [mcp_servers.context7]", LineTone::Muted);
        push_text(&mut lines, "  command = \"npx\"", LineTone::Muted);
        push_text(&mut lines, "  args = [\"-y\", \"@upstash/context7-mcp\"]", LineTone::Muted);
        push_line(&mut lines, Vec::new(), LineTone::Plain, false);
        push_text(&mut lines, "  [mcp_servers.remote]", LineTone::Muted);
        push_text(&mut lines, "  url = \"https://example.com/mcp\"", LineTone::Muted);
        proof {
            assert(lines_view(lines@) =~= no_server_rows(config_path@));
        }
    } else {
        let mut k: usize = first;
        if first < servers.len() {
            while k < servers.len()
                invariant
                    first <= k <= servers@.len(),
                    lines_view(lines@) == rows_upto(servers@, selected as int, first as int, k as int),
                decreases servers@.len() - k,
            {
                push_entry(&mut lines, &servers[k], k == selected);
                k = k + 1;
            }
        }
        let ghost r = rows_upto(servers@, selected as int, first as int, servers@.len() as int);
        assert(lines_view(lines@) == r);
        if lines.len() > ch {
            lines.truncate(ch);
            proof {
                assert(lines_view(lines@) =~= r.take(ch as int));
            }
        }
    }
    ViewerLayout { dialog, title: string_of(&t), first, lines }
}

// ===== The page of one server =====

/// At most two rows of a description are shown; when more were wrapped, the
/// second ends in an ellipsis in place of its last character. An empty
/// description reads `(无描述)`.
pub open spec fn desc_lines(desc: Seq<char>, width: nat) -> Seq<Seq<char>> {
    if desc.len() == 0 {
        seq!["(无描述)"@]
    } else {
        let w = wrapped(desc, 0, width).0;
        if w.len() > 2 {
            let t = w.take(2);
            if t[1].len() > 0 {
                t.update(1, t[1].drop_last().push('…'))
            } else {
                t
            }
        } else {
            w
        }
    }
}

/// The columns left for a description.
pub open spec fn desc_width(area_w: nat) -> nat {
    if content_width(area_w) >= 3 {
        (content_width(area_w) - 3) as nat
    } else {
        0
    }
}

/// The description of the `i`-th tool (empty where none is known).
pub open spec fn tool_desc(descs: Seq<String>, i: int) -> Seq<char> {
    if 0 <= i < descs.len() {
        descs[i]@
    } else {
        Seq::empty()
    }
}

/// The `i`-th entry of the page: the tools, then the resources, then the
/// prompts, each with its icon, name and description rows.
pub open spec fn entry_at(s: McpServerView, descs: Seq<String>, width: nat, i: int) -> (
    char,
    Seq<char>,
    Seq<Seq<char>>,
) {
    let nt = s.tools@.len() as int;
    let nr = s.resources@.len() as int;
    if i < nt {
        ('🔧', s.tools@[i]@, desc_lines(tool_desc(descs, i), width))
    } else if i < nt + nr {
        ('📄', s.resources@[i - nt].0@, desc_lines(s.resources@[i - nt].1@, width))
    } else {
        ('💬', s.prompts@[i - nt - nr].0@, desc_lines(s.prompts@[i - nt - nr].1@, width))
    }
}

/// All entries of the page.
pub open spec fn detail_entries(s: McpServerView, descs: Seq<String>, width: nat) -> Seq<
    (char, Seq<char>, Seq<Seq<char>>),
> {
    Seq::new(
        (s.tools@.len() + s.resources@.len() + s.prompts@.len()) as nat,
        |i: int| entry_at(s, descs, width, i),
    )
}

/// The rows of one entry: marker, icon and name, then its description.
pub open spec fn entry_detail_rows(e: (char, Seq<char>, Seq<Seq<char>>), sel: bool) -> Seq<
    (Seq<char>, LineTone, bool),
> {
    seq![(selector(sel) + seq![e.0] + " "@ + e.1, LineTone::Plain, sel)] + e.2.map_values(
        |d: Seq<char>| ("  "@ + d, LineTone::Dim, sel),
    )
}

/// The rows of the entries from `from` up to `to`.
pub open spec fn entries_rows(
    es: Seq<(char, Seq<char>, Seq<Seq<char>>)>,
    from: int,
    to: int,
    selected: int,
) -> Seq<(Seq<char>, LineTone, bool)>
    decreases to - from,
{
    if to <= from || to > es.len() {
        Seq::empty()
    } else {
        entries_rows(es, from, to - 1, selected) + entry_detail_rows(es[to - 1], to - 1 == selected)
    }
}

/// A section: its heading and a blank row, then its entries; nothing when
/// it has no entries.
pub open spec fn section_rows(
    es: Seq<(char, Seq<char>, Seq<Seq<char>>)>,
    from: int,
    to: int,
    heading: Seq<char>,
    tone: LineTone,
    selected: int,
) -> Seq<(Seq<char>, LineTone, bool)> {
    if to <= from {
        Seq::empty()
    } else {
        seq![(heading, tone, false), (Seq::<char>::empty(), LineTone::Plain, false)] + entries_rows(
            es,
            from,
            to,
            selected,
        )
    }
}

/// A section's heading: its label and how many entries it has.
pub open spec fn heading(label: Seq<char>, count: nat) -> Seq<char> {
    " "@ + label + " ("@ + decimal(count) + ")"@
}

/// Every row of the page: tools, resources, prompts; `te` and `re` are where
/// the tools and the resources end.
pub open spec fn detail_rows(
    es: Seq<(char, Seq<char>, Seq<Seq<char>>)>,
    te: int,
    re: int,
    selected: int,
) -> Seq<(Seq<char>, LineTone, bool)> {
    section_rows(es, 0, te, heading("工具"@, te as nat), LineTone::ToolsHeading, selected)
        + section_rows(
        es,
        te,
        re,
        heading("资源"@, (re - te) as nat),
        LineTone::ResourcesHeading,
        selected,
    ) + section_rows(
        es,
        re,
        es.len() as int,
        heading("提示词"@, (es.len() - re) as nat),
        LineTone::PromptsHeading,
        selected,
    )
}

/// The rows taken by the first `k` entries.
pub open spec fn entry_heights(es: Seq<(char, Seq<char>, Seq<Seq<char>>)>, k: int) -> nat
    decreases k,
{
    if k <= 0 || k > es.len() {
        0
    } else {
        entry_heights(es, k - 1) + 1 + es[k - 1].2.len()
    }
}

/// The row of the selected entry's name: two rows for each section that has
/// entries and starts at or before it, and the rows of the entries before it
/// (all of them when the selection lies past the last).
pub open spec fn selected_row(
    es: Seq<(char, Seq<char>, Seq<Seq<char>>)>,
    te: int,
    re: int,
    selected: int,
) -> nat {
    let heads = (if 0 < te {
        1nat
    } else {
        0nat
    }) + (if te < re && te <= selected {
        1nat
    } else {
        0nat
    }) + (if re < es.len() && re <= selected {
        1nat
    } else {
        0nat
    });
    2 * heads + entry_heights(
        es,
        if selected < es.len() {
            selected
        } else {
            es.len() as int
        },
    )
}

/// The page scrolls only when the selection lies below the first screenful,
/// and then puts it in the middle.
pub open spec fn scroll_of(row: nat, content_h: nat) -> nat {
    if row >= content_h {
        (row - content_h / 2) as nat
    } else {
        0
    }
}

/// The rows from `a` on, at most `n` of them.
pub open spec fn window<T>(rows: Seq<T>, a: nat, n: nat) -> Seq<T> {
    if rows.len() <= a {
        Seq::empty()
    } else if rows.len() <= a + n {
        rows.subrange(a as int, rows.len() as int)
    } else {
        rows.subrange(a as int, (a + n) as int)
    }
}

/// The rows of a server that exposes nothing.
pub open spec fn nothing_rows() -> Seq<(Seq<char>, LineTone, bool)> {
    seq![
        (Seq::empty(), LineTone::Plain, false),
        ("  此服务器没有暴露任何工具、资源或提示词"@, LineTone::Hint, false),
    ]
}

proof fn lemma_entries_rows_len(
    es: Seq<(char, Seq<char>, Seq<Seq<char>>)>,
    from: int,
    to: int,
    selected: int,
)
    requires
        0 <= from <= to <= es.len(),
    ensures
        entries_rows(es, from, to, selected).len() == entry_heights(es, to) - entry_heights(es, from),
    decreases to - from,
{
    if to > from {
        lemma_entries_rows_len(es, from, to - 1, selected);
    }
}

proof fn lemma_heights_grow(es: Seq<(char, Seq<char>, Seq<Seq<char>>)>, j: int, k: int)
    requires
        0 <= j <= k <= es.len(),
    ensures
        entry_heights(es, j) <= entry_heights(es, k),
    decreases k - j,
{
    if j < k {
        lemma_heights_grow(es, j, k - 1);
    }
}

fn desc_lines_of(desc: &str, width: usize) -> (v: Vec<String>)
    ensures
        v@.map_values(|l: String| l@) == desc_lines(desc@, width as nat),
        v@.len() <= 2,
{
    let d = chars_of(desc);
    if d.len() == 0 {
        let mut v: Vec<String> = Vec::new();
        v.push(string_of(&chars_of("(无描述)")));
        proof {
            assert(v@.map_values(|l: String| l@) =~= seq!["(无描述)"@]);
        }
        return v;
    }
    let (mut w, _, _) = wrap_input(desc, 0, width);
    let ghost wl = w@.map_values(|l: String| l@);
    assert(wl == wrapped(desc@, 0, width as nat).0);
    if w.len() > 2 {
        w.truncate(2);
        let last = chars_of(w[1].as_str());
        let ghost t = wl.take(2);
        assert(w@.map_values(|l: String| l@) =~= t);
        if last.len() > 0 {
            let mut l = last;
            l.pop();
            l.push('…');
            w.set(1, string_of(&l));
            proof {
                assert(w@.map_values(|l: String| l@) =~= t.update(1, t[1].drop_last().push('…')));
            }
        }
    }
    w
}

struct DetailEntry {
    icon: char,
    name: String,
    desc: Vec<String>,
}

spec fn entry_model(e: DetailEntry) -> (char, Seq<char>, Seq<Seq<char>>) {
    (e.icon, e.name@, e.desc@.map_values(|l: String| l@))
}

spec fn entries_model(v: Seq<DetailEntry>) -> Seq<(char, Seq<char>, Seq<Seq<char>>)> {
    v.map_values(|e: DetailEntry| entry_model(e))
}

fn build_entries(s: &McpServerView, descs: &[String], width: usize) -> (v: Vec<DetailEntry>)
    ensures
        entries_model(v@) == detail_entries(*s, descs@, width as nat),
        forall|k: int| 0 <= k < v@.len() ==> (#[trigger] v@[k]).desc@.len() <= 2,
{
    let ghost f = |j: int| entry_at(*s, descs@, width as nat, j);
    let nt = s.tools.len();
    let nr = s.resources.len();
    let np = s.prompts.len();
    let mut v: Vec<DetailEntry> = Vec::new();
    let mut i: usize = 0;
    while i < nt
        invariant
            i <= nt,
            nt == s.tools@.len(),
            f == (|j: int| entry_at(*s, descs@, width as nat, j)),
            entries_model(v@) =~= Seq::new(i as nat, f),
            forall|k: int| 0 <= k < v@.len() ==> (#[trigger] v@[k]).desc@.len() <= 2,
        decreases nt - i,
    {
        let d = if i < descs.len() {
            desc_lines_of(descs[i].as_str(), width)
        } else {
            desc_lines_of(String::new().as_str(), width)
        };
        let ghost old_v = v@;
        v.push(DetailEntry { icon: '🔧', name: s.tools[i].clone(), desc: d });
        proof {
            let m = entries_model(v@);
            assert(m.drop_last() =~= entries_model(v@.drop_last()));
            assert(v@.drop_last() =~= old_v);
            assert(m.last() == entry_model(v@.last()));
            assert(m.last() == f((i) as int));
            assert forall|t: int| 0 <= t < (i) implies m[t] == f(t) by {
                assert(m[t] == m.drop_last()[t]);
            }
            assert(m =~= Seq::new((i + 1) as nat, f));
        }
        i = i + 1;
    }
    let mut j: usize = 0;
    while j < nr
        invariant
            j <= nr,
            nt == s.tools@.len(),
            nr == s.resources@.len(),
            f == (|j: int| entry_at(*s, descs@, width as nat, j)),
            entries_model(v@) =~= Seq::new((nt + j) as nat, f),
            forall|k: int| 0 <= k < v@.len() ==> (#[trigger] v@[k]).desc@.len() <= 2,
        decreases nr - j,
    {
        let d = desc_lines_of(s.resources[j].1.as_str(), width);
        let ghost old_v = v@;
        v.push(DetailEntry { icon: '📄', name: s.resources[j].0.clone(), desc: d });
        proof {
            let m = entries_model(v@);
            assert(m.drop_last() =~= entries_model(v@.drop_last()));
            assert(v@.drop_last() =~= old_v);
            assert(m.last() == entry_model(v@.last()));
            assert(m.last() == f((nt + j) as int));
            assert forall|t: int| 0 <= t < (nt + j) implies m[t] == f(t) by {
                assert(m[t] == m.drop_last()[t]);
            }
            assert(m =~= Seq::new((nt + j + 1) as nat, f));
        }
        j = j + 1;
    }
    let mut k: usize = 0;
    while k < np
        invariant
            k <= np,
            nt == s.tools@.len(),
            nr == s.resources@.len(),
            np == s.prompts@.len(),
            f == (|j: int| entry_at(*s, descs@, width as nat, j)),
            entries_model(v@) =~= Seq::new((nt + nr + k) as nat, f),
            forall|m: int| 0 <= m < v@.len() ==> (#[trigger] v@[m]).desc@.len() <= 2,
        decreases np - k,
    {
        let d = desc_lines_of(s.prompts[k].1.as_str(), width);
        let ghost old_v = v@;
        v.push(DetailEntry { icon: '💬', name: s.prompts[k].0.clone(), desc: d });
        proof {
            let m = entries_model(v@);
            assert(m.drop_last() =~= entries_model(v@.drop_last()));
            assert(v@.drop_last() =~= old_v);
            assert(m.last() == entry_model(v@.last()));
            assert(m.last() == f((nt + nr + k) as int));
            assert forall|t: int| 0 <= t < (nt + nr + k) implies m[t] == f(t) by {
                assert(m[t] == m.drop_last()[t]);
            }
            assert(m =~= Seq::new((nt + nr + k + 1) as nat, f));
        }
        k = k + 1;
    }
    v
}

fn push_entry_rows(out: &mut Vec<PanelLine>, e: &DetailEntry, sel: bool)
    ensures
        lines_view(final(out)@) == lines_view(old(out)@) + entry_detail_rows(entry_model(*e), sel),
{
    let ghost l0 = lines_view(out@);
    let ghost ds = e.desc@.map_values(|l: String| l@);
    let ghost rows = ds.map_values(|d: Seq<char>| ("  "@ + d, LineTone::Dim, sel));
    let mut h: Vec<char> = if sel {
        chars_of("▸ ")
    } else {
        chars_of("  ")
    };
    h.push(e.icon);
    extend_chars(&mut h, &chars_of(" "));
    extend_chars(&mut h, &chars_of(e.name.as_str()));
    let ghost hrow = (h@, LineTone::Plain, sel);
    assert(h@ =~= selector(sel) + seq![e.icon] + " "@ + e.name@);
    push_line(out, h, LineTone::Plain, sel);
    let mut k: usize = 0;
    while k < e.desc.len()
        invariant
            k <= e.desc@.len(),
            ds == e.desc@.map_values(|l: String| l@),
            rows == ds.map_values(|d: Seq<char>| ("  "@ + d, LineTone::Dim, sel)),
            lines_view(out@) == l0 + seq![hrow] + rows.take(k as int),
        decreases e.desc@.len() - k,
    {
        let mut c = chars_of("  ");
        extend_chars(&mut c, &chars_of(e.desc[k].as_str()));
        proof {
            assert(c@ == "  "@ + ds[k as int]);
        }
        push_line(out, c, LineTone::Dim, sel);
        proof {
            assert(rows.take(k + 1) =~= rows.take(k as int).push(rows[k as int]));
        }
        k = k + 1;
    }
    proof {
        assert(rows.take(e.desc@.len() as int) =~= rows);
        assert(lines_view(out@) =~= l0 + entry_detail_rows(entry_model(*e), sel));
    }
}

fn push_section(
    out: &mut Vec<PanelLine>,
    es: &Vec<DetailEntry>,
    from: usize,
    to: usize,
    label: &str,
    tone: LineTone,
    selected: usize,
)
    requires
        from <= to <= es@.len(),
    ensures
        lines_view(final(out)@) == lines_view(old(out)@) + section_rows(
            entries_model(es@),
            from as int,
            to as int,
            heading(label@, (to - from) as nat),
            tone,
            selected as int,
        ),
{
    if from < to {
        let ghost l0 = lines_view(out@);
        let ghost m = entries_model(es@);
        let mut h = chars_of(" ");
        extend_chars(&mut h, &chars_of(label));
        extend_chars(&mut h, &chars_of(" ("));
        extend_chars(&mut h, &decimal_chars(to - from));
        extend_chars(&mut h, &chars_of(")"));
        assert(h@ =~= heading(label@, (to - from) as nat));
        let ghost top = seq![(h@, tone, false), (Seq::<char>::empty(), LineTone::Plain, false)];
        push_line(out, h, tone, false);
        push_line(out, Vec::new(), LineTone::Plain, false);
        assert(lines_view(out@) =~= l0 + top + entries_rows(m, from as int, from as int, selected as int));
        let mut k: usize = from;
        while k < to
            invariant
                from <= k <= to <= es@.len(),
                m == entries_model(es@),
                lines_view(out@) == l0 + top + entries_rows(m, from as int, k as int, selected as int),
            decreases to - k,
        {
            push_entry_rows(out, &es[k], k == selected);
            proof {
                assert(m[k as int] == entry_model(es@[k as int]));
                assert(lines_view(out@) =~= l0 + top + entries_rows(m, from as int, k + 1, selected as int));
            }
            k = k + 1;
        }
        proof {
            assert(lines_view(out@) =~= l0 + (top + entries_rows(m, from as int, to as int, selected as int)));
        }
    } else {
        proof {
            assert(lines_view(out@) =~= lines_view(old(out)@) + Seq::<(Seq<char>, LineTone, bool)>::empty());
        }
    }
}

proof fn lemma_selected_row_bound(
    m: Seq<(char, Seq<char>, Seq<Seq<char>>)>,
    te: int,
    re: int,
    selected: int,
)
    requires
        0 <= te <= re <= m.len(),
    ensures
        selected_row(m, te, re, selected) <= detail_rows(m, te, re, selected).len(),
{
    let n = m.len() as int;
    lemma_entries_rows_len(m, 0, te, selected);
    lemma_entries_rows_len(m, te, re, selected);
    lemma_entries_rows_len(m, re, n, selected);
    lemma_heights_grow(m, 0, te);
    lemma_heights_grow(m, te, re);
    lemma_heights_grow(m, re, n);
    let lim = if selected < n {
        selected
    } else {
        n
    };
    if selected >= 0 {
        lemma_heights_grow(m, lim, n);
    }
}

fn selected_row_of(es: &Vec<DetailEntry>, te: usize, re: usize, selected: usize, total: usize) -> (r:
    usize)
    requires
        te <= re <= es@.len(),
        total == detail_rows(entries_model(es@), te as int, re as int, selected as int).len(),
        selected_row(entries_model(es@), te as int, re as int, selected as int) <= total,
    ensures
        r == selected_row(entries_model(es@), te as int, re as int, selected as int),
{
    let ghost m = entries_model(es@);
    let n = es.len();
    let lim: usize = if selected < n {
        selected
    } else {
        n
    };
    let mut row: usize = 0;
    let mut k: usize = 0;
    while k < lim
        invariant
            k <= lim <= n,
            n == es@.len(),
            m == entries_model(es@),
            row == entry_heights(m, k as int),
            entry_heights(m, lim as int) <= total,
        decreases lim - k,
    {
        proof {
            lemma_heights_grow(m, k + 1, lim as int);
            assert(m[k as int].2.len() == es@[k as int].desc@.len());
        }
        row = row + 1 + es[k].desc.len();
        k = k + 1;
    }
    let mut heads: usize = 0;
    if 0 < te {
        heads = heads + 1;
    }
    if te < re && te <= selected {
        heads = heads + 1;
    }
    if re < n && re <= selected {
        heads = heads + 1;
    }
    2 * heads + row
}

fn window_of(all: Vec<PanelLine>, scroll: usize, ch: usize) -> (w: Vec<PanelLine>)
    ensures
        lines_view(w@) == window(lines_view(all@), scroll as nat, ch as nat),
{
    let ghost rows = lines_view(all@);
    let mut all = all;
    if scroll < all.len() {
        let mut w = all.split_off(scroll);
        proof {
            assert(lines_view(w@) =~= rows.subrange(scroll as int, rows.len() as int));
        }
        let ghost wv = lines_view(w@);
        w.truncate(ch);
        proof {
            if ch <= wv.len() {
                assert(lines_view(w@) =~= rows.subrange(scroll as int, (scroll + ch) as int));
            }
        }
        w
    } else {
        let w: Vec<PanelLine> = Vec::new();
        proof {
            assert(lines_view(w@) =~= Seq::<(Seq<char>, LineTone, bool)>::empty());
        }
        w
    }
}

/// The page of server `s` as it is shown in an area of `area_w` by `area_h`
/// cells, with the entry at `selected` highlighted; `descs` holds the
/// description of each tool, in the order of `s.tools`.
pub open spec fn detail_shown(
    v: DetailLayout,
    area_w: nat,
    area_h: nat,
    s: McpServerView,
    descs: Seq<String>,
    selected: nat,
) -> bool {
    let es = detail_entries(s, descs, desc_width(area_w));
    let te = s.tools@.len() as int;
    let re = te + s.resources@.len();
    &&& v.dialog == dialog_rect(area_w, area_h)
    &&& v.title@ == " "@ + s.name@ + " "@
    &&& if es.len() == 0 {
        v.scroll == 0 && lines_view(v.lines@) == nothing_rows()
    } else {
        &&& v.scroll == scroll_of(selected_row(es, te, re, selected as int), content_height(area_h))
        &&& lines_view(v.lines@) == window(
            detail_rows(es, te, re, selected as int),
            v.scroll as nat,
            content_height(area_h),
        )
    }
}

/// The page of the server at `server_index`: its tools, resources and
/// prompts in sections, scrolled so that the selected entry is in view; none
/// when there is no such server.
pub fn mcp_detail_view(
    area_w: u16,
    area_h: u16,
    servers: &[McpServerView],
    server_index: usize,
    selected: usize,
    tool_descs: &[String],
) -> (r: Option<DetailLayout>)
    ensures
        match r {
            None => server_index >= servers@.len(),
            Some(v) => server_index < servers@.len() && detail_shown(
                v,
                area_w as nat,
                area_h as nat,
                servers@[server_index as int],
                tool_descs@,
                selected as nat,
            ),
        },
{
    if server_index >= servers.len() {
        return None;
    }
    let s = &servers[server_index];
    let dialog = dialog_rect_of(area_w, area_h);
    let ch: usize = (dialog.height - 4) as usize;
    let cw: usize = if dialog.width >= 2 {
        (dialog.width - 2) as usize
    } else {
        0
    };
    let dw: usize = if cw >= 3 {
        cw - 3
    } else {
        0
    };
    assert(dw == desc_width(area_w as nat));
    let mut t = chars_of(" ");
    extend_chars(&mut t, &chars_of(s.name.as_str()));
    extend_chars(&mut t, &chars_of(" "));
    let title = string_of(&t);

    let es = build_entries(s, tool_descs, dw);
    let ghost m = entries_model(es@);
    assert(m.len() == es@.len());
    let n = es.len();
    if n == 0 {
        let mut lines: Vec<PanelLine> = Vec::new();
        push_line(&mut lines, Vec::new(), LineTone::Plain, false);
        push_text(&mut lines, "  此服务器没有暴露任何工具、资源或提示词", LineTone::Hint);
        proof {
            assert(lines_view(lines@) =~= nothing_rows());
        }
        return Some(DetailLayout { dialog, title, scroll: 0, lines });
    }
    let te = s.tools.len();
    let re = te + s.resources.len();
    let mut all: Vec<PanelLine> = Vec::new();
    push_section(&mut all, &es, 0, te, "工具", LineTone::ToolsHeading, selected);
    push_section(&mut all, &es, te, re, "资源", LineTone::ResourcesHeading, selected);
    push_section(&mut all, &es, re, n, "提示词", LineTone::PromptsHeading, selected);
    assert(lines_view(all@) =~= detail_rows(m, te as int, re as int, selected as int));
    proof {
        lemma_selected_row_bound(m, te as int, re as int, selected as int);
    }
    let sel_row = selected_row_of(&es, te, re, selected, all.len());
    let scroll = if sel_row >= ch {
        sel_row - ch / 2
    } else {
        0
    };
    let lines = window_of(all, scroll, ch);
    Some(DetailLayout { dialog, title, scroll, lines })
}

} // verus!

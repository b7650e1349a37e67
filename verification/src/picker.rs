//! The `@` file picker: when it opens, what it looks for, and what it
//! shows.

use vstd::prelude::*;

use crate::clipboard::{mime_from_extension, path_mime};
use crate::command::{chars_name_lt, name_lt};
use crate::json_args::opt_view;
use crate::paste::pairs_view;
use crate::text::{
    chars_contain, chars_of, contains_seq, extend_chars, is_whitespace, is_ws, string_of, sub_chars,
};

verus! {

/// State of the file picker.
pub struct FilePickerState {
    pub active: bool,
    pub results: Vec<String>,
    pub selected: usize,
    /// Mentions inserted so far: the text shown and the path it stands for.
    pub pending_mentions: Vec<(String, String)>,
    /// All paths once listed (each with its lower-case form), or None
    /// before the first listing.
    pub cached: Option<Vec<(String, String)>>,
}

impl FilePickerState {
    pub fn new() -> (r: Self)
        ensures
            !r.active,
            r.results@.len() == 0,
            r.selected == 0,
            r.pending_mentions@.len() == 0,
            r.cached is None,
    {
        FilePickerState {
            active: false,
            results: Vec::new(),
            selected: 0,
            pending_mentions: Vec::new(),
            cached: None,
        }
    }

    /// Closes the picker and forgets its results, mentions and path list
    /// (called when the input is used up or reset).
    pub fn reset(&mut self)
        ensures
            !final(self).active,
            final(self).results@.len() == 0,
            final(self).selected == 0,
            final(self).pending_mentions@.len() == 0,
            final(self).cached is None,
    {
        self.active = false;
        self.results = Vec::new();
        self.selected = 0;
        self.pending_mentions = Vec::new();
        self.cached = None;
    }
}

impl Default for FilePickerState {
    fn default() -> (r: Self)
        ensures
            !r.active,
            r.results@.len() == 0,
            r.selected == 0,
            r.pending_mentions@.len() == 0,
            r.cached is None,
    {
        FilePickerState::new()
    }
}

/// Index of the last `c` in `s`, or -1.
pub open spec fn last_index_of(s: Seq<char>, c: char) -> int
    decreases s.len(),
{
    if s.len() == 0 {
        -1
    } else if s.last() == c {
        s.len() - 1
    } else {
        last_index_of(s.drop_last(), c)
    }
}

/// The `@query` being typed before the cursor: the text after the last
/// `@`, when the `@` starts the text or follows white space and the query
/// holds no white space.
pub open spec fn picker_query(before: Seq<char>) -> Option<Seq<char>> {
    let i = last_index_of(before, '@');
    if i < 0 {
        None
    } else if i > 0 && !is_ws(before[i - 1]) {
        None
    } else if exists|k: int| i + 1 <= k < before.len() && is_ws(#[trigger] before[k]) {
        None
    } else {
        Some(before.skip(i + 1))
    }
}

/// The `@query` before the cursor (see `picker_query`).
pub fn file_picker_query(before_cursor: &str) -> (r: Option<String>)
    ensures
        match picker_query(before_cursor@) {
            Some(q) => r matches Some(s) && s@ == q,
            None => r is None,
        },
{
    let v = chars_of(before_cursor);
    let ghost b = before_cursor@;
    let mut i = v.len();
    proof {
        assert(b.take(b.len() as int) =~= b);
    }
    while i > 0 && v[i - 1] != '@'
        invariant
            i <= v@.len(),
            v@ == b,
            last_index_of(b, '@') == last_index_of(b.take(i as int), '@'),
        decreases i,
    {
        proof {
            assert(b.take(i as int).drop_last() =~= b.take(i - 1));
        }
        i = i - 1;
    }
    if i == 0 {
        proof {
            assert(b.take(0).len() == 0);
        }
        return None;
    }
    let at_idx = i - 1;
    proof {
        assert(b.take(i as int).last() == b[at_idx as int]);
        assert(last_index_of(b, '@') == at_idx);
    }
    if at_idx > 0 && !is_whitespace(v[at_idx - 1]) {
        return None;
    }
    let mut k = at_idx + 1;
    while k < v.len()
        invariant
            at_idx + 1 <= k <= v@.len(),
            v@ == b,
            last_index_of(b, '@') == at_idx,
            b == before_cursor@,
            at_idx > 0 ==> is_ws(b[at_idx - 1]),
            forall|j: int| at_idx + 1 <= j < k ==> !is_ws(#[trigger] b[j]),
        decreases v@.len() - k,
    {
        if is_whitespace(v[k]) {
            proof {
                assert(is_ws(b[k as int]));
            }
            return None;
        }
        k = k + 1;
    }
    let q = sub_chars(&v, at_idx + 1, v.len());
    proof {
        assert(q@ =~= b.skip(at_idx + 1));
    }
    Some(string_of(&q))
}

/// What `str::to_lowercase` gives for a string.
pub uninterp spec fn lowercase(s: Seq<char>) -> Seq<char>;

/// `str::to_lowercase`. Claims only that the result is the named value
/// `lowercase(s@)`.
#[verifier::external_body]
pub(crate) fn to_lowercase(s: &str) -> (r: String)
    ensures
        r@ == lowercase(s@),
{
    s.to_lowercase()
}

/// The paths the picker shows for `query`: in listed order, those whose
/// lower-case form contains the lower-case query (all of them for an empty
/// query), at most 20 for an empty query and 15 otherwise.
pub open spec fn picker_results_upto(
    cached: Seq<(Seq<char>, Seq<char>)>,
    query: Seq<char>,
    n: int,
) -> Seq<Seq<char>>
    decreases n,
{
    if n <= 0 {
        Seq::empty()
    } else {
        let rest = picker_results_upto(cached, query, n - 1);
        let limit = if query.len() == 0 {
            20int
        } else {
            15int
        };
        if rest.len() < limit && (query.len() == 0 || contains_seq(
            cached[n - 1].1,
            lowercase(query),
        )) {
            rest.push(cached[n - 1].0)
        } else {
            rest
        }
    }
}

pub open spec fn picker_results(cached: Seq<(Seq<char>, Seq<char>)>, query: Seq<char>) -> Seq<
    Seq<char>,
> {
    picker_results_upto(cached, query, cached.len() as int)
}

pub open spec fn strings_view(v: Seq<String>) -> Seq<Seq<char>> {
    v.map_values(|s: String| s@)
}

/// The paths to show for `query` among the listed ones (see `picker_results`).
pub fn filter_picker_results(cached: &[(String, String)], query: &str) -> (r: Vec<String>)
    ensures
        strings_view(r@) == picker_results(pairs_view(cached@), query@),
{
    let ghost cv = pairs_view(cached@);
    let q_lower = chars_of(to_lowercase(query).as_str());
    let empty = query.is_empty();
    let limit: usize = if empty {
        20
    } else {
        15
    };
    let mut results: Vec<String> = Vec::new();
    let mut i: usize = 0;
    while i < cached.len()
        invariant
            i <= cached@.len(),
            cv == pairs_view(cached@),
            q_lower@ == lowercase(query@),
            empty == (query@.len() == 0),
            limit == (if query@.len() == 0 {
                20int
            } else {
                15int
            }),
            strings_view(results@) == picker_results_upto(cv, query@, i as int),
            results@.len() <= limit,
        decreases cached@.len() - i,
    {
        let ghost r0 = results@;
        if results.len() < limit && (empty || chars_contain(
            &chars_of(cached[i].1.as_str()),
            &q_lower,
        )) {
            results.push(string_of(&chars_of(cached[i].0.as_str())));
            proof {
                assert(strings_view(results@) =~= strings_view(r0).push(cv[i as int].0));
            }
        }
        i = i + 1;
    }
    results
}

/// The listed paths, none before the first listing.
pub open spec fn listing(cached: Option<Vec<(String, String)>>) -> Seq<(Seq<char>, Seq<char>)> {
    match cached {
        Some(v) => pairs_view(v@),
        None => Seq::empty(),
    }
}

impl FilePickerState {
    /// Whether the text before the cursor opens the picker while no path
    /// list has been made yet (the caller lists the work directory then).
    pub fn needs_listing(&self, before_cursor: &str) -> (b: bool)
        ensures
            b == (picker_query(before_cursor@) is Some && self.cached is None),
    {
        match file_picker_query(before_cursor) {
            Some(_) => self.cached.is_none(),
            None => false,
        }
    }

    /// Opens the picker on the listed paths that match the query before the
    /// cursor, or closes it when there is no query or no match.
    pub fn refresh(&mut self, before_cursor: &str)
        ensures
            final(self).pending_mentions@ == old(self).pending_mentions@,
            final(self).cached == old(self).cached,
            match picker_query(before_cursor@) {
                Some(q) if picker_results(listing(old(self).cached), q).len() > 0 => {
                    &&& final(self).active
                    &&& strings_view(final(self).results@) == picker_results(
                        listing(old(self).cached),
                        q,
                    )
                    &&& final(self).selected == 0
                },
                _ => {
                    &&& !final(self).active
                    &&& final(self).results@ == old(self).results@
                    &&& final(self).selected == old(self).selected
                },
            },
    {
        let query = match file_picker_query(before_cursor) {
            Some(q) => q,
            None => {
                self.active = false;
                return ;
            },
        };
        let results = match &self.cached {
            Some(c) => filter_picker_results(c.as_slice(), query.as_str()),
            None => filter_picker_results(&[], query.as_str()),
        };
        proof {
            if self.cached is None {
                let e: Seq<(String, String)> = Seq::empty();
                assert(pairs_view(e) =~= Seq::empty());
            }
        }
        if results.len() == 0 {
            self.active = false;
        } else {
            self.active = true;
            self.results = results;
            self.selected = 0;
        }
    }
}

/// A relative path of plain components joined by `/`: not empty, no
/// leading, trailing or doubled `/`, no `\\` or `:` (which some platforms
/// read as separators or drive prefixes), and no `.` or `..` component.
pub open spec fn plain_path(s: Seq<char>) -> bool {
    &&& s.len() > 0
    &&& s[0] != '/'
    &&& s.last() != '/'
    &&& forall|i: int| 0 <= i < s.len() ==> #[trigger] s[i] != '\\' && s[i] != ':'
    &&& forall|i: int| 0 <= i < s.len() - 1 ==> !(#[trigger] s[i] == '/' && s[i + 1] == '/')
    &&& forall|i: int|
        0 <= i < s.len() && #[trigger] s[i] == '.' && (i == 0 || s[i - 1] == '/') ==> !(i + 1
            == s.len() || s[i + 1] == '/' || (s[i + 1] == '.' && (i + 2 == s.len() || s[i + 2]
            == '/')))
}

/// `path` is `base`, a `/` and a plain relative path, where `base` is a plain
/// path, possibly after one leading `/`: stripping `base` then leaves
/// exactly that relative path, whole components being matched.
pub open spec fn plain_strip(path: Seq<char>, base: Seq<char>) -> bool {
    &&& (plain_path(base) || (base.len() > 1 && base[0] == '/' && plain_path(base.skip(1))))
    &&& path.len() > base.len() + 1
    &&& path.take(base.len() as int) == base
    &&& path[base.len() as int] == '/'
    &&& plain_path(path.skip(base.len() as int + 1))
}

/// `std::path::Path::strip_prefix` of `base` from `path`, shown with
/// `Path::display`. Claims only what the documentation gives on every
/// platform: the prefix is matched by whole components, so a path made of
/// `base`, `/` and plain components (see `plain_strip`) leaves those
/// components. Other results, which follow the platform's path rules, are
/// left unsaid.
#[verifier::external_body]
fn strip_base(path: &str, base: &str) -> (r: Option<String>)
    ensures
        plain_strip(path@, base@) ==> opt_view(r) == Some(path@.skip(base@.len() as int + 1)),
{
    std::path::Path::new(path).strip_prefix(base).ok().map(|p| p.display().to_string())
}

/// The separator of the platform's paths.
pub open spec fn separator(windows: bool) -> char {
    if windows {
        '\\'
    } else {
        '/'
    }
}

/// The mention for a picked path: `@` and the path relative to the work
/// directory (the path itself when it lies elsewhere), a directory keeping
/// its trailing separator; and `@` with the full path, which it stands for.
pub open spec fn mention(abs_path: Seq<char>, relative: Option<Seq<char>>, windows: bool) -> (
    Seq<char>,
    Seq<char>,
) {
    let sep = separator(windows);
    let rel = match relative {
        Some(r) => r,
        None => abs_path,
    };
    let is_dir = abs_path.len() > 0 && abs_path.last() == sep;
    let shown = if is_dir && !(rel.len() > 0 && rel.last() == sep) {
        rel.push(sep)
    } else {
        rel
    };
    (seq!['@'] + shown, seq!['@'] + abs_path)
}

fn ends_with_char(v: &[char], c: char) -> (b: bool)
    ensures
        b == (v@.len() > 0 && v@.last() == c),
{
    v.len() > 0 && v[v.len() - 1] == c
}

/// The mention for a picked path, given the relative path that stripping
/// the work directory gave (see `mention`).
pub fn mention_for(abs_path: &str, relative: Option<String>, windows: bool) -> (r: (String, String))
    ensures
        (r.0@, r.1@) == mention(
            abs_path@,
            match relative {
                Some(s) => Some(s@),
                None => None,
            },
            windows,
        ),
{
    let sep = if windows {
        '\\'
    } else {
        '/'
    };
    let abs = chars_of(abs_path);
    let mut rel = match relative {
        Some(s) => chars_of(s.as_str()),
        None => chars_of(abs_path),
    };
    if ends_with_char(&abs, sep) && !ends_with_char(&rel, sep) {
        rel.push(sep);
    }
    let mut shown: Vec<char> = Vec::new();
    shown.push('@');
    let mut target: Vec<char> = Vec::new();
    target.push('@');
    let ghost s0 = shown@;
    let ghost t0 = target@;
    extend_chars(&mut shown, &rel);
    extend_chars(&mut target, &abs);
    proof {
        assert(s0 =~= seq!['@']);
        assert(t0 =~= seq!['@']);
    }
    (string_of(&shown), string_of(&target))
}

impl FilePickerState {
    /// The mention for the selected result, made relative to `work_dir`:
    /// None when nothing is selected. The text shown starts with `@`; the
    /// path it stands for is `@` and the result itself; for a result under
    /// `work_dir` made of plain components, the text shown is `@` and the
    /// path relative to `work_dir` (see `mention`).
    pub fn selected_mention(&self, work_dir: &str, windows: bool) -> (r: Option<(String, String)>)
        ensures
            self.selected >= self.results@.len() ==> r is None,
            self.selected < self.results@.len() ==> (r matches Some(m) && m.1@ == seq!['@']
                + self.results@[self.selected as int]@ && m.0@.len() > 0 && m.0@[0] == '@'),
            self.selected < self.results@.len() && plain_strip(
                self.results@[self.selected as int]@,
                work_dir@,
            ) ==> (r matches Some(m) && (m.0@, m.1@) == mention(
                self.results@[self.selected as int]@,
                Some(self.results@[self.selected as int]@.skip(work_dir@.len() as int + 1)),
                windows,
            )),
    {
        if self.selected < self.results.len() {
            let abs = self.results[self.selected].as_str();
            let rel = strip_base(abs, work_dir);
            Some(mention_for(abs, rel, windows))
        } else {
            None
        }
    }
}

// ===== Image mentions =====

/// Whether the mention `(shown, target)` is an image to send along with
/// `text`: its shown text is still in the message and its target is `@`
/// and the path of an image file (by its extension).
pub open spec fn image_mention(m: (Seq<char>, Seq<char>), text: Seq<char>, windows: bool) -> bool {
    contains_seq(text, m.0) && m.1.len() > 0 && m.1[0] == '@' && path_mime(m.1.skip(1), windows)
        is Some
}

/// The paths of the image mentions among the first `n`, in order.
pub open spec fn image_mentions_upto(
    ms: Seq<(Seq<char>, Seq<char>)>,
    text: Seq<char>,
    windows: bool,
    n: int,
) -> Seq<Seq<char>>
    decreases n,
{
    if n <= 0 {
        Seq::empty()
    } else {
        let rest = image_mentions_upto(ms, text, windows, n - 1);
        if image_mention(ms[n - 1], text, windows) {
            rest.push(ms[n - 1].1.skip(1))
        } else {
            rest
        }
    }
}

impl FilePickerState {
    /// The image files among the mentions still in `text`, whose contents
    /// go along with the message (see `image_mention`).
    pub fn mention_image_paths(&self, text: &str, windows: bool) -> (r: Vec<String>)
        ensures
            strings_view(r@) == image_mentions_upto(
                pairs_view(self.pending_mentions@),
                text@,
                windows,
                self.pending_mentions@.len() as int,
            ),
    {
        let ghost mv = pairs_view(self.pending_mentions@);
        let t = chars_of(text);
        let mut out: Vec<String> = Vec::new();
        let mut i: usize = 0;
        while i < self.pending_mentions.len()
            invariant
                i <= self.pending_mentions@.len(),
                mv == pairs_view(self.pending_mentions@),
                t@ == text@,
                strings_view(out@) == image_mentions_upto(mv, text@, windows, i as int),
            decreases self.pending_mentions@.len() - i,
        {
            let ghost o0 = out@;
            let shown = chars_of(self.pending_mentions[i].0.as_str());
            let target = chars_of(self.pending_mentions[i].1.as_str());
            if chars_contain(&t, &shown) && target.len() > 0 && target[0] == '@' {
                let path = sub_chars(&target, 1, target.len());
                proof {
                    assert(target@.subrange(1, target@.len() as int) =~= target@.skip(1));
                }
                match mime_from_extension(&path, windows) {
                    Some(_) => {
                        out.push(string_of(&path));
                        proof {
                            assert(strings_view(out@) =~= strings_view(o0).push(path@));
                        }
                    },
                    None => {},
                }
            }
            i = i + 1;
        }
        out
    }
}

// ===== The listing =====

/// How a listed path is kept: a directory with the separator after it.
pub open spec fn listed_path(path: Seq<char>, is_dir: bool, sep: char) -> Seq<char> {
    if is_dir {
        path.push(sep)
    } else {
        path
    }
}

/// The entries found (path, whether a directory) as plain values.
pub open spec fn found_view(entries: Seq<(String, bool)>) -> Seq<(Seq<char>, bool)> {
    entries.map_values(|e: (String, bool)| (e.0@, e.1))
}

/// Each entry's kept path with its lower-case form, in the order found.
pub open spec fn listing_pairs(found: Seq<(Seq<char>, bool)>, sep: char) -> Seq<
    (Seq<char>, Seq<char>),
> {
    found.map_values(
        |e: (Seq<char>, bool)|
            (listed_path(e.0, e.1, sep), lowercase(listed_path(e.0, e.1, sep))),
    )
}

/// Where the path `x` goes among the pairs `s` (from `i` on): before the
/// first whose path sorts after it.
pub open spec fn path_insert_pos(s: Seq<(Seq<char>, Seq<char>)>, x: Seq<char>, i: int) -> int
    decreases s.len() - i,
{
    if i >= s.len() || i < 0 {
        s.len() as int
    } else if name_lt(x, s[i].0) {
        i
    } else {
        path_insert_pos(s, x, i + 1)
    }
}

/// The first `n` pairs sorted by path (`str`'s order), equal paths in their
/// order.
pub open spec fn sorted_by_path_upto(ps: Seq<(Seq<char>, Seq<char>)>, n: int) -> Seq<
    (Seq<char>, Seq<char>),
>
    decreases n,
{
    if n <= 0 {
        Seq::empty()
    } else {
        let s = sorted_by_path_upto(ps, n - 1);
        let p = path_insert_pos(s, ps[n - 1].0, 0);
        s.take(p).push(ps[n - 1]) + s.skip(p)
    }
}

/// The listing kept from the entries found: each path (a directory with
/// the separator after it) with its lower-case form, sorted by path.
pub open spec fn sorted_listing(found: Seq<(Seq<char>, bool)>, sep: char) -> Seq<(Seq<char>, Seq<char>)> {
    let ps = listing_pairs(found, sep);
    sorted_by_path_upto(ps, ps.len() as int)
}

/// A listed path with its lower-case form.
pub fn listing_pair(path: &str, is_dir: bool, sep: char) -> (r: (String, String))
    ensures
        r.0@ == listed_path(path@, is_dir, sep),
        r.1@ == lowercase(r.0@),
{
    let mut v = chars_of(path);
    if is_dir {
        v.push(sep);
    }
    let p = string_of(&v);
    let lower = to_lowercase(p.as_str());
    (p, lower)
}

proof fn lemma_path_insert_pos_bounds(s: Seq<(Seq<char>, Seq<char>)>, x: Seq<char>, i: int)
    requires
        0 <= i <= s.len(),
    ensures
        i <= path_insert_pos(s, x, i) <= s.len(),
    decreases s.len() - i,
{
    if i < s.len() && !name_lt(x, s[i].0) {
        lemma_path_insert_pos_bounds(s, x, i + 1);
    }
}

/// Inserts `e` into `v`, which is sorted by path, after the pairs whose
/// paths do not sort after it.
fn insert_by_path(v: &mut Vec<(String, String)>, e: (String, String))
    ensures
        ({
            let s = pairs_view(old(v)@);
            let p = path_insert_pos(s, e.0@, 0);
            pairs_view(final(v)@) == s.take(p).push((e.0@, e.1@)) + s.skip(p)
        }),
{
    let ghost s = pairs_view(v@);
    let ename = chars_of(e.0.as_str());
    let mut p: usize = 0;
    let mut done = false;
    while !done && p < v.len()
        invariant
            p <= v@.len(),
            s == pairs_view(v@),
            ename@ == e.0@,
            path_insert_pos(s, e.0@, 0) == path_insert_pos(s, e.0@, p as int),
            done ==> p < v@.len() && name_lt(e.0@, s[p as int].0),
        decreases v@.len() - p, (if done {
            0int
        } else {
            1int
        }),
    {
        proof {
            assert(s[p as int].0 == v@[p as int].0@);
        }
        if chars_name_lt(&ename, &chars_of(v[p].0.as_str())) {
            done = true;
        } else {
            p = p + 1;
        }
    }
    proof {
        lemma_path_insert_pos_bounds(s, e.0@, p as int);
        assert(path_insert_pos(s, e.0@, 0) == p as int);
    }
    let ghost ev = (e.0@, e.1@);
    v.insert(p, e);
    proof {
        assert(pairs_view(v@) =~= s.take(p as int).push(ev) + s.skip(p as int));
    }
}

impl FilePickerState {
    /// Keeps the listing of the work directory made from the entries found
    /// (path, whether a directory), with `sep` after each directory; see
    /// `sorted_listing`. The rest of the picker is unchanged.
    pub fn set_listing(&mut self, entries: Vec<(String, bool)>, sep: char)
        ensures
            final(self).cached matches Some(c) && pairs_view(c@) == sorted_listing(found_view(entries@), sep),
            final(self).active == old(self).active,
            final(self).results@ == old(self).results@,
            final(self).selected == old(self).selected,
            final(self).pending_mentions@ == old(self).pending_mentions@,
    {
        let ghost ps = listing_pairs(found_view(entries@), sep);
        let mut sorted: Vec<(String, String)> = Vec::new();
        let mut i: usize = 0;
        while i < entries.len()
            invariant
                i <= entries@.len(),
                ps == listing_pairs(found_view(entries@), sep),
                ps.len() == entries@.len(),
                pairs_view(sorted@) == sorted_by_path_upto(ps, i as int),
            decreases entries@.len() - i,
        {
            let pair = listing_pair(entries[i].0.as_str(), entries[i].1, sep);
            proof {
                assert(ps[i as int] == (pair.0@, pair.1@));
            }
            insert_by_path(&mut sorted, pair);
            i = i + 1;
        }
        self.cached = Some(sorted);
    }
}

} // verus!

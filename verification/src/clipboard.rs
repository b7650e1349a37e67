//! Images read from the clipboard: decoding the Base64 text that the
//! clipboard tools print, and checking what kind of image the bytes are.

use base64::Engine as _;
use vstd::prelude::*;

use crate::text::{
    blen, byte_len, chars_eq, chars_of, is_whitespace, is_ws, skip_ws, string_of, sub_chars,
    trim, trim_end, trim_end_index, trim_start,
};

verus! {

/// An image taken from the clipboard.
pub struct ClipboardImage {
    pub mime: String,
    pub bytes: Vec<u8>,
}

/// What the standard Base64 engine of the base64 crate decodes from the
/// given text: the bytes, or None when the text is not valid Base64.
pub uninterp spec fn base64_decoded(text: Seq<char>) -> Option<Seq<u8>>;

/// `base64::engine::general_purpose::STANDARD.decode(text)`, with its error
/// turned into `None`. Claims only that the result is the named value
/// `base64_decoded(text@)`.
#[verifier::external_body]
fn decode_standard(text: &str) -> (r: Option<Vec<u8>>)
    ensures
        match base64_decoded(text@) {
            Some(b) => r matches Some(v) && v@ == b,
            None => r is None,
        },
{
    base64::engine::general_purpose::STANDARD.decode(text.as_bytes()).ok()
}

/// `b` starts with the bytes `m`.
pub open spec fn has_magic(b: Seq<u8>, m: Seq<u8>) -> bool {
    m.len() <= b.len() && b.take(m.len() as int) == m
}

/// The image type that the leading bytes show: PNG, JPEG, GIF or WebP.
pub open spec fn image_kind(b: Seq<u8>) -> Option<Seq<char>> {
    if has_magic(b, seq![0x89u8, 0x50u8, 0x4eu8, 0x47u8, 0x0du8, 0x0au8, 0x1au8, 0x0au8]) {
        Some("image/png"@)
    } else if has_magic(b, seq![0xffu8, 0xd8u8, 0xffu8]) {
        Some("image/jpeg"@)
    } else if has_magic(b, seq![0x47u8, 0x49u8, 0x46u8, 0x38u8, 0x37u8, 0x61u8]) || has_magic(
        b,
        seq![0x47u8, 0x49u8, 0x46u8, 0x38u8, 0x39u8, 0x61u8],
    ) {
        Some("image/gif"@)
    } else if b.len() >= 12 && has_magic(b, seq![0x52u8, 0x49u8, 0x46u8, 0x46u8])
        && b.subrange(8, 12) == seq![0x57u8, 0x45u8, 0x42u8, 0x50u8] {
        Some("image/webp"@)
    } else {
        None
    }
}

/// Whether `b` begins with `m`.
fn starts_with_bytes(b: &[u8], m: &[u8]) -> (r: bool)
    ensures
        r == has_magic(b@, m@),
{
    if m.len() > b.len() {
        return false;
    }
    let mut i: usize = 0;
    while i < m.len()
        invariant
            i <= m@.len() <= b@.len(),
            forall|j: int| 0 <= j < i ==> b@[j] == m@[j],
        decreases m@.len() - i,
    {
        if b[i] != m[i] {
            assert(b@.take(m@.len() as int)[i as int] != m@[i as int]);
            return false;
        }
        i = i + 1;
    }
    assert(b@.take(m@.len() as int) =~= m@);
    true
}

/// The MIME type of an image by its leading bytes (see `image_kind`).
pub fn sniff_image_mime(bytes: &[u8]) -> (r: Option<&'static str>)
    ensures
        match image_kind(bytes@) {
            Some(k) => r matches Some(s) && s@ == k,
            None => r is None,
        },
{
    let png: [u8; 8] = [0x89, 0x50, 0x4e, 0x47, 0x0d, 0x0a, 0x1a, 0x0a];
    let jpeg: [u8; 3] = [0xff, 0xd8, 0xff];
    let gif7: [u8; 6] = [0x47, 0x49, 0x46, 0x38, 0x37, 0x61];
    let gif9: [u8; 6] = [0x47, 0x49, 0x46, 0x38, 0x39, 0x61];
    let riff: [u8; 4] = [0x52, 0x49, 0x46, 0x46];
    assert(png@ =~= seq![0x89u8, 0x50u8, 0x4eu8, 0x47u8, 0x0du8, 0x0au8, 0x1au8, 0x0au8]);
    assert(jpeg@ =~= seq![0xffu8, 0xd8u8, 0xffu8]);
    assert(gif7@ =~= seq![0x47u8, 0x49u8, 0x46u8, 0x38u8, 0x37u8, 0x61u8]);
    assert(gif9@ =~= seq![0x47u8, 0x49u8, 0x46u8, 0x38u8, 0x39u8, 0x61u8]);
    assert(riff@ =~= seq![0x52u8, 0x49u8, 0x46u8, 0x46u8]);
    if starts_with_bytes(bytes, &png) {
        Some("image/png")
    } else if starts_with_bytes(bytes, &jpeg) {
        Some("image/jpeg")
    } else if starts_with_bytes(bytes, &gif7) || starts_with_bytes(bytes, &gif9) {
        Some("image/gif")
    } else if bytes.len() >= 12 && starts_with_bytes(bytes, &riff) && bytes[8] == 0x57
        && bytes[9] == 0x45 && bytes[10] == 0x42 && bytes[11] == 0x50 {
        assert(bytes@.subrange(8, 12) =~= seq![0x57u8, 0x45u8, 0x42u8, 0x50u8]);
        Some("image/webp")
    } else {
        proof {
            if bytes@.len() >= 12 && has_magic(bytes@, riff@) {
                assert(bytes@.subrange(8, 12)[0] == bytes@[8]);
                assert(bytes@.subrange(8, 12)[1] == bytes@[9]);
                assert(bytes@.subrange(8, 12)[2] == bytes@[10]);
                assert(bytes@.subrange(8, 12)[3] == bytes@[11]);
            }
        }
        None
    }
}

/// The image a clipboard tool wrote to its standard output: a PNG when the
/// tool succeeded and printed something (the tools are asked for PNG).
pub fn png_from_tool_output(success: bool, stdout: Vec<u8>) -> (r: Option<ClipboardImage>)
    ensures
        (success && stdout@.len() > 0) ==> (r matches Some(img) && img.mime@ == "image/png"@
            && img.bytes@ == stdout@),
        !(success && stdout@.len() > 0) ==> r is None,
{
    if success && stdout.len() > 0 {
        Some(ClipboardImage { mime: "image/png".to_owned(), bytes: stdout })
    } else {
        None
    }
}

/// `s` without its white-space characters.
pub open spec fn without_ws(s: Seq<char>) -> Seq<char>
    decreases s.len(),
{
    if s.len() == 0 {
        s
    } else if is_ws(s.last()) {
        without_ws(s.drop_last())
    } else {
        without_ws(s.drop_last()).push(s.last())
    }
}

/// Decodes the Base64 text printed by a clipboard tool (white space is
/// ignored) and keeps it only when the bytes are a known image: the text
/// without white space must be non-empty and decode, and the bytes must
/// show an image type.
pub fn decode_base64_image(stdout: &str) -> (r: Option<ClipboardImage>)
    ensures
        ({
            let t = without_ws(stdout@);
            if t.len() == 0 {
                r is None
            } else {
                match base64_decoded(t) {
                    None => r is None,
                    Some(b) => match image_kind(b) {
                        None => r is None,
                        Some(k) => r matches Some(img) && img.bytes@ == b && img.mime@ == k,
                    },
                }
            }
        }),
{
    let v = chars_of(stdout);
    let mut kept: Vec<char> = Vec::new();
    let mut i: usize = 0;
    while i < v.len()
        invariant
            i <= v@.len(),
            v@ == stdout@,
            kept@ == without_ws(v@.take(i as int)),
        decreases v@.len() - i,
    {
        proof {
            assert(v@.take(i + 1).drop_last() =~= v@.take(i as int));
            assert(v@.take(i + 1).last() == v@[i as int]);
        }
        if !is_whitespace(v[i]) {
            kept.push(v[i]);
        }
        i = i + 1;
    }
    proof {
        assert(v@.take(v@.len() as int) =~= v@);
    }
    if kept.len() == 0 {
        return None;
    }
    let b64 = string_of(&kept);
    let bytes = match decode_standard(b64.as_str()) {
        Some(b) => b,
        None => return None,
    };
    let mime = match sniff_image_mime(&bytes) {
        Some(m) => m,
        None => return None,
    };
    Some(ClipboardImage { mime: string_of(&chars_of(mime)), bytes })
}

// ===== Image files named by a pasted path =====

/// Separators of path components: `/`, and on Windows also `\`.
pub open spec fn is_sep(c: char, windows: bool) -> bool {
    c == '/' || (windows && c == '\\')
}

pub open spec fn is_ascii_letter(c: char) -> bool {
    ('a' <= c && c <= 'z') || ('A' <= c && c <= 'Z')
}

/// An absolute path: on Windows a drive letter, a colon and a separator,
/// or two leading backslashes (a UNC or device path); elsewhere a leading
/// `/`.
pub open spec fn is_absolute_path(p: Seq<char>, windows: bool) -> bool {
    if windows {
        ||| (p.len() >= 3 && is_ascii_letter(p[0]) && p[1] == ':' && is_sep(p[2], true))
        ||| (p.len() >= 2 && p[0] == '\\' && p[1] == '\\')
    } else {
        p.len() >= 1 && p[0] == '/'
    }
}

/// Number of trailing separators of `p`.
pub open spec fn sep_suffix_len(p: Seq<char>, windows: bool) -> int
    decreases p.len(),
{
    if p.len() == 0 {
        0
    } else if is_sep(p.last(), windows) {
        1 + sep_suffix_len(p.drop_last(), windows)
    } else {
        0
    }
}

/// Index where the last component of `p` starts (after the last separator).
pub open spec fn name_start(p: Seq<char>, windows: bool) -> int
    decreases p.len(),
{
    if p.len() == 0 {
        0
    } else if is_sep(p.last(), windows) {
        p.len() as int
    } else {
        name_start(p.drop_last(), windows)
    }
}

/// Index of the last `.` in `n`, or -1.
pub open spec fn last_dot(n: Seq<char>) -> int
    decreases n.len(),
{
    if n.len() == 0 {
        -1
    } else if n.last() == '.' {
        n.len() - 1
    } else {
        last_dot(n.drop_last())
    }
}

/// The last component of `p`, trailing separators ignored.
pub open spec fn file_name(p: Seq<char>, windows: bool) -> Seq<char> {
    let q = p.take(p.len() - sep_suffix_len(p, windows));
    q.skip(name_start(q, windows))
}

/// The extension of the file name: what follows its last `.`, unless that
/// dot starts the name (a hidden file has no extension).
pub open spec fn extension(p: Seq<char>, windows: bool) -> Option<Seq<char>> {
    let n = file_name(p, windows);
    let d = last_dot(n);
    if d > 0 {
        Some(n.skip(d + 1))
    } else {
        None
    }
}

pub open spec fn ascii_lower(c: char) -> char {
    if 'A' <= c && c <= 'Z' {
        ((c as u32) + 32) as char
    } else {
        c
    }
}

pub open spec fn lowered(s: Seq<char>) -> Seq<char> {
    s.map_values(|c: char| ascii_lower(c))
}

/// The image type an extension names, letter case ignored.
pub open spec fn ext_mime(e: Seq<char>) -> Option<Seq<char>> {
    let l = lowered(e);
    if l == "png"@ {
        Some("image/png"@)
    } else if l == "jpg"@ || l == "jpeg"@ {
        Some("image/jpeg"@)
    } else if l == "gif"@ {
        Some("image/gif"@)
    } else if l == "webp"@ {
        Some("image/webp"@)
    } else {
        None
    }
}

/// The image type a path's extension names (see `ext_mime`).
pub open spec fn path_mime(p: Seq<char>, windows: bool) -> Option<Seq<char>> {
    match extension(p, windows) {
        Some(e) => ext_mime(e),
        None => None,
    }
}

/// Number of leading `c` in `v`.
pub open spec fn char_prefix_len(v: Seq<char>, c: char) -> int
    decreases v.len(),
{
    if v.len() == 0 {
        0
    } else if v[0] == c {
        1 + char_prefix_len(v.drop_first(), c)
    } else {
        0
    }
}

/// Number of trailing `c` in `v`.
pub open spec fn char_suffix_len(v: Seq<char>, c: char) -> int
    decreases v.len(),
{
    if v.len() == 0 {
        0
    } else if v.last() == c {
        1 + char_suffix_len(v.drop_last(), c)
    } else {
        0
    }
}

/// `v` without leading and trailing `c` (`str::trim_matches` with a char).
pub open spec fn trim_char(v: Seq<char>, c: char) -> Seq<char> {
    let a = v.skip(char_prefix_len(v, c));
    a.take(a.len() - char_suffix_len(a, c))
}

/// The path a pasted text names when it is a single absolute path of an
/// image file: the text trimmed, stripped of surrounding double quotes and
/// trimmed again, non-empty, at most 1024 bytes, with no quote or newline
/// left, absolute, and with an image extension.
pub open spec fn pasted_image_path(text: Seq<char>, windows: bool) -> Option<Seq<char>> {
    let t = trim(trim_char(trim(text), '"'));
    if t.len() == 0 || blen(t) > 1024 {
        None
    } else if t.contains('"') || t.contains('\n') {
        None
    } else if !is_absolute_path(t, windows) {
        None
    } else if path_mime(t, windows) is None {
        None
    } else {
        Some(t)
    }
}

proof fn lemma_char_prefix_bounds(v: Seq<char>, c: char)
    ensures
        0 <= char_prefix_len(v, c) <= v.len(),
    decreases v.len(),
{
    if v.len() > 0 && v[0] == c {
        lemma_char_prefix_bounds(v.drop_first(), c);
    }
}

proof fn lemma_char_suffix_bounds(v: Seq<char>, c: char)
    ensures
        0 <= char_suffix_len(v, c) <= v.len(),
    decreases v.len(),
{
    if v.len() > 0 && v.last() == c {
        lemma_char_suffix_bounds(v.drop_last(), c);
    }
}

/// `v[from..to]` without leading and trailing white space, as bounds.
fn trim_range(v: &[char], from: usize, to: usize) -> (r: (usize, usize))
    requires
        from <= to <= v@.len(),
    ensures
        from <= r.0 <= r.1 <= to,
        v@.subrange(r.0 as int, r.1 as int) == trim(v@.subrange(from as int, to as int)),
{
    let a = skip_ws(v, from, to);
    let b = trim_end_index(v, a, to);
    proof {
        let s = v@.subrange(from as int, to as int);
        assert(trim_start(s) =~= v@.subrange(a as int, to as int));
        assert(trim_end(v@.subrange(a as int, to as int)) =~= v@.subrange(a as int, b as int));
    }
    (a, b)
}

/// `v[from..to]` without leading and trailing `c`, as bounds.
fn trim_char_range(v: &[char], from: usize, to: usize, c: char) -> (r: (usize, usize))
    requires
        from <= to <= v@.len(),
    ensures
        from <= r.0 <= r.1 <= to,
        v@.subrange(r.0 as int, r.1 as int) == trim_char(v@.subrange(from as int, to as int), c),
{
    let mut a = from;
    while a < to && v[a] == c
        invariant
            from <= a <= to <= v@.len(),
            char_prefix_len(v@.subrange(from as int, to as int), c) == (a - from) + char_prefix_len(
                v@.subrange(a as int, to as int),
                c,
            ),
        decreases to - a,
    {
        proof {
            assert(v@.subrange(a as int, to as int).drop_first() =~= v@.subrange(a + 1, to as int));
        }
        a = a + 1;
    }
    let mut b = to;
    while b > a && v[b - 1] == c
        invariant
            a <= b <= to <= v@.len(),
            char_suffix_len(v@.subrange(a as int, to as int), c) == (to - b) + char_suffix_len(
                v@.subrange(a as int, b as int),
                c,
            ),
        decreases b,
    {
        proof {
            assert(v@.subrange(a as int, b as int).drop_last() =~= v@.subrange(a as int, b - 1));
        }
        b = b - 1;
    }
    proof {
        let s = v@.subrange(from as int, to as int);
        if a < to {
            assert(v@.subrange(a as int, to as int)[0] == v@[a as int]);
        }
        if b > a {
            assert(v@.subrange(a as int, b as int).last() == v@[b - 1]);
        }
        assert(s.skip(char_prefix_len(s, c)) =~= v@.subrange(a as int, to as int));
        let t = v@.subrange(a as int, to as int);
        assert(t.take(t.len() - char_suffix_len(t, c)) =~= v@.subrange(a as int, b as int));
    }
    (a, b)
}

fn is_sep_char(c: char, windows: bool) -> (b: bool)
    ensures
        b == is_sep(c, windows),
{
    c == '/' || (windows && c == '\\')
}

/// Whether `p` is an absolute path (see `is_absolute_path`).
pub fn path_is_absolute(p: &[char], windows: bool) -> (b: bool)
    ensures
        b == is_absolute_path(p@, windows),
{
    if windows {
        let drive = p.len() >= 3 && (('a' <= p[0] && p[0] <= 'z') || ('A' <= p[0] && p[0] <= 'Z'))
            && p[1] == ':' && is_sep_char(p[2], true);
        let unc = p.len() >= 2 && p[0] == '\\' && p[1] == '\\';
        drive || unc
    } else {
        p.len() >= 1 && p[0] == '/'
    }
}

fn lower_char(c: char) -> (r: char)
    ensures
        r == ascii_lower(c),
{
    if 'A' <= c && c <= 'Z' {
        let b = c as u8;
        (b + 32) as char
    } else {
        c
    }
}

/// The image type a path's extension names (see `path_mime`).
pub fn mime_from_extension(p: &[char], windows: bool) -> (r: Option<String>)
    ensures
        match path_mime(p@, windows) {
            Some(m) => r matches Some(s) && s@ == m,
            None => r is None,
        },
{
    // Drop trailing separators.
    let mut end = p.len();
    proof {
        assert(p@.take(end as int) =~= p@);
    }
    while end > 0 && is_sep_char(p[end - 1], windows)
        invariant
            end <= p@.len(),
            sep_suffix_len(p@, windows) == (p@.len() - end) + sep_suffix_len(
                p@.take(end as int),
                windows,
            ),
        decreases end,
    {
        proof {
            assert(p@.take(end as int).drop_last() =~= p@.take(end - 1));
        }
        end = end - 1;
    }
    proof {
        if end > 0 {
            assert(p@.take(end as int).last() == p@[end - 1]);
        }
    }
    let ghost q = p@.take(end as int);
    // Find where the last component starts.
    let mut start = end;
    proof {
        assert(q.take(end as int) =~= q);
    }
    while start > 0 && !is_sep_char(p[start - 1], windows)
        invariant
            start <= end <= p@.len(),
            q == p@.take(end as int),
            name_start(q, windows) == name_start(q.take(start as int), windows),
            forall|j: int| start <= j < end ==> !is_sep(#[trigger] p@[j], windows),
        decreases start,
    {
        proof {
            assert(q.take(start as int).drop_last() =~= q.take(start - 1));
            assert(q.take(start as int).last() == p@[start - 1]);
        }
        start = start - 1;
    }
    proof {
        if start > 0 {
            assert(q.take(start as int).last() == p@[start - 1]);
        }
        assert(name_start(q, windows) == start);
    }
    let ghost n = q.skip(start as int);
    // Find the last dot of the name.
    let mut dot = end;
    proof {
        assert(n =~= p@.subrange(start as int, end as int));
        assert(n.take(end - start) =~= n);
    }
    while dot > start && p[dot - 1] != '.'
        invariant
            start <= dot <= end <= p@.len(),
            n == p@.subrange(start as int, end as int),
            last_dot(n) == last_dot(n.take(dot - start)),
        decreases dot,
    {
        proof {
            assert(n.take(dot - start).drop_last() =~= n.take(dot - start - 1));
            assert(n.take(dot - start).last() == p@[dot - 1]);
        }
        dot = dot - 1;
    }
    proof {
        assert(n =~= p@.subrange(start as int, end as int));
        if dot > start {
            assert(n.take(dot - start).last() == p@[dot - 1]);
            assert(last_dot(n) == dot - 1 - start);
        } else {
            assert(n.take(0) =~= Seq::<char>::empty());
            assert(last_dot(n) == -1);
        }
    }
    if dot <= start + 1 {
        return None;
    }
    let mut lower: Vec<char> = Vec::new();
    let mut i = dot;
    while i < end
        invariant
            dot <= i <= end <= p@.len(),
            lower@ == lowered(p@.subrange(dot as int, i as int)),
        decreases end - i,
    {
        lower.push(lower_char(p[i]));
        proof {
            assert(lowered(p@.subrange(dot as int, i + 1)) =~= lowered(
                p@.subrange(dot as int, i as int),
            ).push(ascii_lower(p@[i as int])));
        }
        i = i + 1;
    }
    proof {
        assert(n.skip(dot - start) =~= p@.subrange(dot as int, end as int));
    }
    let png = chars_of("png");
    let jpg = chars_of("jpg");
    let jpeg = chars_of("jpeg");
    let gif = chars_of("gif");
    let webp = chars_of("webp");
    if chars_eq(&lower, &png) {
        Some("image/png".to_owned())
    } else if chars_eq(&lower, &jpg) || chars_eq(&lower, &jpeg) {
        Some("image/jpeg".to_owned())
    } else if chars_eq(&lower, &gif) {
        Some("image/gif".to_owned())
    } else if chars_eq(&lower, &webp) {
        Some("image/webp".to_owned())
    } else {
        None
    }
}

/// Whether `c` occurs in `v[from..to]`.
fn has_char(v: &[char], from: usize, to: usize, c: char) -> (b: bool)
    requires
        from <= to <= v@.len(),
    ensures
        b == v@.subrange(from as int, to as int).contains(c),
{
    let mut i = from;
    while i < to
        invariant
            from <= i <= to <= v@.len(),
            forall|j: int| from <= j < i ==> v@[j] != c,
        decreases to - i,
    {
        if v[i] == c {
            assert(v@.subrange(from as int, to as int)[i - from] == c);
            return true;
        }
        i = i + 1;
    }
    proof {
        let s = v@.subrange(from as int, to as int);
        assert forall|k: int| 0 <= k < s.len() implies s[k] != c by {
            assert(s[k] == v@[from + k]);
        }
    }
    false
}

/// The image file a pasted text names, if it is a single absolute path of
/// one (see `pasted_image_path`); `windows` selects the path syntax.
pub fn image_path_from_paste(text: &str, windows: bool) -> (r: Option<String>)
    ensures
        match pasted_image_path(text@, windows) {
            Some(t) => r matches Some(s) && s@ == t,
            None => r is None,
        },
{
    let v = chars_of(text);
    let n = v.len();
    let (a0, b0) = trim_range(&v, 0, n);
    let (a1, b1) = trim_char_range(&v, a0, b0, '"');
    let (a, b) = trim_range(&v, a1, b1);
    proof {
        assert(v@.subrange(0, n as int) =~= v@);
    }
    let t = sub_chars(&v, a, b);
    if t.len() == 0 {
        return None;
    }
    let s = string_of(&t);
    if byte_len(s.as_str()) > 1024 {
        return None;
    }
    if has_char(&t, 0, t.len(), '"') || has_char(&t, 0, t.len(), '\n') {
        proof {
            assert(t@.subrange(0, t@.len() as int) =~= t@);
        }
        return None;
    }
    proof {
        assert(t@.subrange(0, t@.len() as int) =~= t@);
    }
    if !path_is_absolute(&t, windows) {
        return None;
    }
    match mime_from_extension(&t, windows) {
        None => None,
        Some(_) => Some(s),
    }
}

/// The largest image that is attached, in bytes (10 MiB).
pub const MAX_IMAGE_BYTES: u64 = 10485760;

/// Whether a file of `len` bytes is small enough to attach as an image.
pub fn image_size_allowed(len: u64) -> (b: bool)
    ensures
        b == (len <= MAX_IMAGE_BYTES),
{
    len <= MAX_IMAGE_BYTES
}

/// An image file's bytes as an attachment: kept when they are at most
/// `MAX_IMAGE_BYTES` and show a known image type, whatever the file's name
/// says.
pub fn image_attachment(bytes: Vec<u8>) -> (r: Option<ClipboardImage>)
    ensures
        r is Some <==> (bytes@.len() <= MAX_IMAGE_BYTES && image_kind(bytes@) is Some),
        r matches Some(img) ==> img.bytes@ == bytes@ && Some(img.mime@) == image_kind(bytes@),
{
    if bytes.len() as u64 > MAX_IMAGE_BYTES {
        return None;
    }
    match sniff_image_mime(&bytes) {
        Some(m) => Some(ClipboardImage { mime: string_of(&chars_of(m)), bytes }),
        None => None,
    }
}

/// An image read from the clipboard is attached only when it is at most
/// `MAX_IMAGE_BYTES`.
pub fn within_image_limit(img: Option<ClipboardImage>) -> (r: Option<ClipboardImage>)
    ensures
        r is Some <==> (img matches Some(i) && i.bytes@.len() <= MAX_IMAGE_BYTES),
        r is Some ==> r == img,
{
    match img {
        Some(i) => {
            if i.bytes.len() as u64 <= MAX_IMAGE_BYTES {
                Some(i)
            } else {
                None
            }
        },
        None => None,
    }
}

} // verus!

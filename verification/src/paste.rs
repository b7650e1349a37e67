//! Telling a paste from typing when the terminal delivers a paste as a fast
//! burst of key presses, and the small text rules around pastes.
//!
//! Instants are milliseconds on a monotonic clock the caller reads.

use vstd::prelude::*;

use crate::text::{
    byte_at, byte_len, byte_offset, chars_contain, chars_of, chars_replace, contains_seq,
    decimal, decimal_chars, extend_chars, occurs_at, push_char, replace_all, str_contains,
    string_of,
};
use crate::timing::{duration_since, since};

verus! {

/// At least this many fast characters in a row begin a paste.
pub const PASTE_BURST_MIN_CHARS: u16 = 3;

/// An Enter within this many milliseconds of a pasted character belongs to
/// the paste.
pub const PASTE_ENTER_SUPPRESS_WINDOW_MS: u64 = 120;

/// Characters at most this many milliseconds apart count as one burst.
pub const PASTE_BURST_CHAR_INTERVAL_MS: u64 = 8;

/// Idle time after which an active paste is flushed, on Windows.
pub const PASTE_BURST_ACTIVE_IDLE_TIMEOUT_WINDOWS_MS: u64 = 60;

/// Idle time after which an active paste is flushed, elsewhere.
pub const PASTE_BURST_ACTIVE_IDLE_TIMEOUT_MS: u64 = 8;

/// Pastes of more characters than this become a placeholder element.
pub const LARGE_PASTE_CHAR_THRESHOLD: usize = 200;

/// Instants must leave room for the Enter window.
pub open spec fn time_ok(now: u64) -> bool {
    now + PASTE_ENTER_SUPPRESS_WINDOW_MS <= u64::MAX
}

/// What to do with a plain character.
#[derive(Debug, Clone, Copy, PartialEq, Eq, Structural)]
pub enum CharDecision {
    /// Start a paste that takes back the last `retro_chars` typed characters.
    BeginBuffer { retro_chars: u16 },
    /// Add the character to the paste under way.
    BufferAppend,
    /// Hold the character back until it is clear whether a paste follows.
    RetainFirstChar,
    /// The held character and this one begin a paste.
    BeginBufferFromPending,
}

/// What a flush gives back.
pub enum FlushResult {
    Paste(String),
    Typed(char),
    Nothing,
}

pub struct PasteBurst {
    last_plain_char_time: Option<u64>,
    consecutive_plain_char_burst: u16,
    burst_window_until: Option<u64>,
    buffer: String,
    active: bool,
    pending_first_char: Option<(char, u64)>,
    active_idle_timeout: u64,
}

/// The state of a paste detector as plain values.
pub struct PasteBurstView {
    pub last_plain_char_time: Option<u64>,
    pub consecutive_plain_char_burst: u16,
    pub burst_window_until: Option<u64>,
    pub buffer: Seq<char>,
    pub active: bool,
    pub pending_first_char: Option<(char, u64)>,
    pub active_idle_timeout: u64,
}

impl View for PasteBurst {
    type V = PasteBurstView;

    closed spec fn view(&self) -> PasteBurstView {
        PasteBurstView {
            last_plain_char_time: self.last_plain_char_time,
            consecutive_plain_char_burst: self.consecutive_plain_char_burst,
            burst_window_until: self.burst_window_until,
            buffer: self.buffer@,
            active: self.active,
            pending_first_char: self.pending_first_char,
            active_idle_timeout: self.active_idle_timeout,
        }
    }
}

impl PasteBurstView {
    /// A paste is under way or buffered.
    pub open spec fn active_internal(self) -> bool {
        self.active || self.buffer.len() > 0
    }

    /// A paste is under way, buffered, or a character is held back.
    pub open spec fn is_active(self) -> bool {
        self.active_internal() || self.pending_first_char is Some
    }

    /// A character is held back and arrived at most one burst interval
    /// before `now`.
    pub open spec fn held_recent(self, now: u64) -> bool {
        match self.pending_first_char {
            Some(p) => since(now, p.1) <= PASTE_BURST_CHAR_INTERVAL_MS,
            None => false,
        }
    }

    /// The held-back character and its time.
    pub open spec fn held(self) -> (char, u64) {
        match self.pending_first_char {
            Some(p) => p,
            None => (' ', 0),
        }
    }

    /// The state after counting a plain character at `now`.
    pub open spec fn noted(self, now: u64) -> PasteBurstView {
        let n = match self.last_plain_char_time {
            Some(prev) => if since(now, prev) <= PASTE_BURST_CHAR_INTERVAL_MS {
                if self.consecutive_plain_char_burst < u16::MAX {
                    (self.consecutive_plain_char_burst + 1) as u16
                } else {
                    u16::MAX
                }
            } else {
                1u16
            },
            None => 1u16,
        };
        PasteBurstView {
            consecutive_plain_char_burst: n,
            last_plain_char_time: Some(now),
            ..self
        }
    }

    /// The decision and state after the plain character `ch` at `now`.
    pub open spec fn on_char(self, ch: char, now: u64) -> (CharDecision, PasteBurstView) {
        let s = self.noted(now);
        let w = Some((now + PASTE_ENTER_SUPPRESS_WINDOW_MS) as u64);
        if s.active {
            (CharDecision::BufferAppend, PasteBurstView { burst_window_until: w, ..s })
        } else if s.held_recent(now) {
            let p = s.held();
            (
                CharDecision::BeginBufferFromPending,
                PasteBurstView {
                    active: true,
                    pending_first_char: None,
                    buffer: s.buffer.push(p.0),
                    burst_window_until: w,
                    ..s
                },
            )
        } else if s.consecutive_plain_char_burst >= PASTE_BURST_MIN_CHARS {
            (
                CharDecision::BeginBuffer {
                    retro_chars: (s.consecutive_plain_char_burst - 1) as u16,
                },
                s,
            )
        } else {
            (CharDecision::RetainFirstChar, PasteBurstView { pending_first_char: Some((ch, now)), ..s })
        }
    }

    /// The flush timeout that applies: the idle timeout while a paste is
    /// under way, the burst interval otherwise.
    pub open spec fn timeout(self) -> u64 {
        if self.active_internal() {
            self.active_idle_timeout
        } else {
            PASTE_BURST_CHAR_INTERVAL_MS
        }
    }

    /// The last plain character is older than the timeout at `now`.
    pub open spec fn timed_out(self, now: u64) -> bool {
        self.last_plain_char_time matches Some(t) && since(now, t) > self.timeout()
    }
}

impl PasteBurst {
    pub closed spec fn buffer_string(&self) -> String {
        self.buffer
    }

    /// A detector with the idle timeout of non-Windows terminals.
    pub fn new() -> (r: Self)
        ensures
            r@ == (PasteBurstView {
                last_plain_char_time: None,
                consecutive_plain_char_burst: 0,
                burst_window_until: None,
                buffer: Seq::empty(),
                active: false,
                pending_first_char: None,
                active_idle_timeout: PASTE_BURST_ACTIVE_IDLE_TIMEOUT_MS,
            }),
    {
        PasteBurst::with_idle_timeout(PASTE_BURST_ACTIVE_IDLE_TIMEOUT_MS)
    }

    /// A detector that flushes an active paste after `timeout` idle
    /// milliseconds (`PASTE_BURST_ACTIVE_IDLE_TIMEOUT_WINDOWS_MS` on Windows).
    pub fn with_idle_timeout(timeout: u64) -> (r: Self)
        ensures
            r@ == (PasteBurstView {
                last_plain_char_time: None,
                consecutive_plain_char_burst: 0,
                burst_window_until: None,
                buffer: Seq::empty(),
                active: false,
                pending_first_char: None,
                active_idle_timeout: timeout,
            }),
    {
        PasteBurst {
            last_plain_char_time: None,
            consecutive_plain_char_burst: 0,
            burst_window_until: None,
            buffer: String::new(),
            active: false,
            pending_first_char: None,
            active_idle_timeout: timeout,
        }
    }

    /// Counts a plain character at `now` into the current burst.
    fn note_plain_char(&mut self, now: u64)
        ensures
            final(self)@ == old(self)@.noted(now),
    {
        match self.last_plain_char_time {
            Some(prev) if duration_since(now, prev) <= PASTE_BURST_CHAR_INTERVAL_MS => {
                self.consecutive_plain_char_burst = self.consecutive_plain_char_burst.saturating_add(
                    1,
                );
            },
            _ => {
                self.consecutive_plain_char_burst = 1;
            },
        }
        self.last_plain_char_time = Some(now);
    }

    /// Decides what a plain character typed at `now` is.
    pub fn on_plain_char(&mut self, ch: char, now: u64) -> (d: CharDecision)
        requires
            time_ok(now),
        ensures
            (d, final(self)@) == old(self)@.on_char(ch, now),
    {
        self.note_plain_char(now);
        if self.active {
            self.burst_window_until = Some(now + PASTE_ENTER_SUPPRESS_WINDOW_MS);
            return CharDecision::BufferAppend;
        }
        if let Some((held, held_at)) = self.pending_first_char {
            if duration_since(now, held_at) <= PASTE_BURST_CHAR_INTERVAL_MS {
                self.active = true;
                self.pending_first_char = None;
                push_char(&mut self.buffer, held);
                self.burst_window_until = Some(now + PASTE_ENTER_SUPPRESS_WINDOW_MS);
                return CharDecision::BeginBufferFromPending;
            }
        }
        if self.consecutive_plain_char_burst >= PASTE_BURST_MIN_CHARS {
            return CharDecision::BeginBuffer {
                retro_chars: self.consecutive_plain_char_burst - 1,
            };
        }
        self.pending_first_char = Some((ch, now));
        CharDecision::RetainFirstChar
    }

    /// Flushes at `now` what has waited past its timeout: a finished paste,
    /// or a held-back character that turned out to be typed.
    pub fn flush_if_due(&mut self, now: u64) -> (r: FlushResult)
        ensures
            old(self)@.timed_out(now) && old(self)@.active_internal() ==> (r matches FlushResult::Paste(
                p,
            ) && p@ == old(self)@.buffer && final(self)@ == (PasteBurstView {
                active: false,
                buffer: Seq::empty(),
                ..old(self)@
            })),
            old(self)@.timed_out(now) && !old(self)@.active_internal() ==> match old(
                self,
            )@.pending_first_char {
                Some(p) => (r matches FlushResult::Typed(c) && c == p.0 && final(self)@ == (
                PasteBurstView { pending_first_char: None, ..old(self)@ })),
                None => (r matches FlushResult::Nothing && final(self)@ == old(self)@),
            },
            !old(self)@.timed_out(now) ==> (r matches FlushResult::Nothing && final(self)@ == old(
                self,
            )@),
    {
        let timeout = if self.is_active_internal() {
            self.active_idle_timeout
        } else {
            PASTE_BURST_CHAR_INTERVAL_MS
        };
        let timed_out = match self.last_plain_char_time {
            Some(t) => duration_since(now, t) > timeout,
            None => false,
        };
        if timed_out && self.is_active_internal() {
            self.active = false;
            let out = self.buffer.clone();
            self.buffer = String::new();
            FlushResult::Paste(out)
        } else if timed_out {
            match self.pending_first_char {
                Some((ch, _)) => {
                    self.pending_first_char = None;
                    FlushResult::Typed(ch)
                },
                None => FlushResult::Nothing,
            }
        } else {
            FlushResult::Nothing
        }
    }

    /// Adds a newline to the paste under way (then true); otherwise false.
    pub fn append_newline_if_active(&mut self, now: u64) -> (b: bool)
        requires
            time_ok(now),
        ensures
            b == old(self)@.is_active(),
            b ==> final(self)@ == (PasteBurstView {
                buffer: old(self)@.buffer.push('\n'),
                burst_window_until: Some((now + PASTE_ENTER_SUPPRESS_WINDOW_MS) as u64),
                ..old(self)@
            }),
            !b ==> final(self)@ == old(self)@,
    {
        if self.is_active() {
            push_char(&mut self.buffer, '\n');
            self.burst_window_until = Some(now + PASTE_ENTER_SUPPRESS_WINDOW_MS);
            true
        } else {
            false
        }
    }

    /// An Enter at `now` belongs to a paste: one is under way, or `now` is
    /// within the window after the last pasted character.
    pub fn newline_should_insert(&self, now: u64) -> (b: bool)
        ensures
            b == (self@.is_active() || (self@.burst_window_until matches Some(u) && now <= u)),
    {
        let in_window = match self.burst_window_until {
            Some(until) => now <= until,
            None => false,
        };
        self.is_active() || in_window
    }

    pub fn extend_window(&mut self, now: u64)
        requires
            time_ok(now),
        ensures
            final(self)@ == (PasteBurstView {
                burst_window_until: Some((now + PASTE_ENTER_SUPPRESS_WINDOW_MS) as u64),
                ..old(self)@
            }),
    {
        self.burst_window_until = Some(now + PASTE_ENTER_SUPPRESS_WINDOW_MS);
    }

    /// Starts a paste with the characters taken back from the input.
    pub fn begin_with_retro_grabbed(&mut self, grabbed: String, now: u64)
        requires
            time_ok(now),
        ensures
            final(self)@ == (PasteBurstView {
                buffer: old(self)@.buffer + grabbed@,
                active: true,
                burst_window_until: Some((now + PASTE_ENTER_SUPPRESS_WINDOW_MS) as u64),
                ..old(self)@
            }),
    {
        let g = chars_of(grabbed.as_str());
        let ghost b0 = self.buffer@;
        let mut i: usize = 0;
        while i < g.len()
            invariant
                i <= g@.len(),
                g@ == grabbed@,
                self.buffer@ == b0 + g@.take(i as int),
                self.last_plain_char_time == old(self).last_plain_char_time,
                self.consecutive_plain_char_burst == old(self).consecutive_plain_char_burst,
                self.burst_window_until == old(self).burst_window_until,
                self.active == old(self).active,
                self.pending_first_char == old(self).pending_first_char,
                self.active_idle_timeout == old(self).active_idle_timeout,
                b0 == old(self).buffer@,
            decreases g@.len() - i,
        {
            push_char(&mut self.buffer, g[i]);
            assert(b0 + g@.take(i + 1) =~= (b0 + g@.take(i as int)).push(g@[i as int]));
            i = i + 1;
        }
        assert(g@.take(g@.len() as int) =~= g@);
        self.active = true;
        self.burst_window_until = Some(now + PASTE_ENTER_SUPPRESS_WINDOW_MS);
    }

    pub fn append_char_to_buffer(&mut self, ch: char, now: u64)
        requires
            time_ok(now),
        ensures
            final(self)@ == (PasteBurstView {
                buffer: old(self)@.buffer.push(ch),
                burst_window_until: Some((now + PASTE_ENTER_SUPPRESS_WINDOW_MS) as u64),
                ..old(self)@
            }),
    {
        push_char(&mut self.buffer, ch);
        self.burst_window_until = Some(now + PASTE_ENTER_SUPPRESS_WINDOW_MS);
    }

    /// Starts a paste that takes back the last `retro_chars` characters of
    /// `before`; returns where they start (a byte offset) and them.
    pub fn decide_begin_buffer(&mut self, now: u64, before: &str, retro_chars: usize) -> (r: (
        usize,
        String,
    ))
        requires
            time_ok(now),
        ensures
            r.0 == retro_start(before@, retro_chars as int),
            r.1@ == before@.skip(retro_char_start(before@, retro_chars as int)),
            final(self)@ == (PasteBurstView {
                buffer: old(self)@.buffer + r.1@,
                active: true,
                burst_window_until: Some((now + PASTE_ENTER_SUPPRESS_WINDOW_MS) as u64),
                ..old(self)@
            }),
    {
        let start_byte = retro_start_index(before, retro_chars);
        let v = chars_of(before);
        let k = retro_char_index(&v, retro_chars);
        let mut g: Vec<char> = Vec::new();
        let mut i = k;
        while i < v.len()
            invariant
                k <= i <= v@.len(),
                g@ == v@.subrange(k as int, i as int),
            decreases v@.len() - i,
        {
            g.push(v[i]);
            assert(v@.subrange(k as int, i + 1) =~= v@.subrange(k as int, i as int).push(v@[i as int]));
            i = i + 1;
        }
        assert(v@.subrange(k as int, v@.len() as int) =~= v@.skip(k as int));
        let grabbed = string_of(&g);
        let copy = string_of(&g);
        self.begin_with_retro_grabbed(copy, now);
        (start_byte, grabbed)
    }

    /// Ends a paste before a modified key: returns the buffered paste with
    /// any held-back character after it.
    pub fn flush_before_modified_input(&mut self) -> (r: Option<String>)
        ensures
            !old(self)@.is_active() ==> r is None && final(self)@ == old(self)@,
            old(self)@.is_active() ==> (r matches Some(s) && s@ == old(self)@.buffer + match old(
                self,
            )@.pending_first_char {
                Some(p) => seq![p.0],
                None => Seq::empty(),
            } && final(self)@ == (PasteBurstView {
                active: false,
                buffer: Seq::empty(),
                pending_first_char: None,
                ..old(self)@
            })),
    {
        if !self.is_active() {
            return None;
        }
        self.active = false;
        let mut out = self.buffer.clone();
        self.buffer = String::new();
        match self.pending_first_char {
            Some((ch, _)) => {
                self.pending_first_char = None;
                push_char(&mut out, ch);
            },
            None => {
                assert(out@ =~= out@ + Seq::<char>::empty());
            },
        }
        Some(out)
    }

    /// Forgets the burst after a key that is not a plain character.
    pub fn clear_window_after_non_char(&mut self)
        ensures
            final(self)@ == (PasteBurstView {
                consecutive_plain_char_burst: 0,
                last_plain_char_time: None,
                burst_window_until: None,
                active: false,
                pending_first_char: None,
                ..old(self)@
            }),
    {
        self.consecutive_plain_char_burst = 0;
        self.last_plain_char_time = None;
        self.burst_window_until = None;
        self.active = false;
        self.pending_first_char = None;
    }

    pub fn is_active(&self) -> (b: bool)
        ensures
            b == self@.is_active(),
    {
        self.is_active_internal() || self.pending_first_char.is_some()
    }

    fn is_active_internal(&self) -> (b: bool)
        ensures
            b == self@.active_internal(),
    {
        self.active || !self.buffer.as_str().is_empty()
    }

    /// Forgets everything after an explicit (bracketed) paste.
    pub fn clear_after_explicit_paste(&mut self)
        ensures
            final(self)@ == (PasteBurstView {
                last_plain_char_time: None,
                consecutive_plain_char_burst: 0,
                burst_window_until: None,
                active: false,
                buffer: Seq::empty(),
                pending_first_char: None,
                ..old(self)@
            }),
    {
        self.last_plain_char_time = None;
        self.consecutive_plain_char_burst = 0;
        self.burst_window_until = None;
        self.active = false;
        self.buffer = String::new();
        self.pending_first_char = None;
    }

    /// How long to wait before the next flush, if anything waits.
    pub fn flush_timeout(&self) -> (r: Option<u64>)
        ensures
            r == (if self@.active_internal() {
                Some(self@.active_idle_timeout)
            } else if self@.pending_first_char is Some {
                Some(PASTE_BURST_CHAR_INTERVAL_MS)
            } else {
                None
            }),
    {
        if self.is_active_internal() {
            Some(self.active_idle_timeout)
        } else if self.pending_first_char.is_some() {
            Some(PASTE_BURST_CHAR_INTERVAL_MS)
        } else {
            None
        }
    }
}

/// Index of the first of the last `retro` characters of `before` (0 when
/// there are fewer; the end when `retro` is 0).
pub open spec fn retro_char_start(before: Seq<char>, retro: int) -> int {
    if retro == 0 {
        before.len() as int
    } else if retro <= before.len() {
        before.len() - retro
    } else {
        0
    }
}

/// Byte offset where the last `retro` characters of `before` start.
pub open spec fn retro_start(before: Seq<char>, retro: int) -> int {
    byte_at(before, retro_char_start(before, retro)) as int
}

fn retro_char_index(v: &Vec<char>, retro_chars: usize) -> (k: usize)
    ensures
        k == retro_char_start(v@, retro_chars as int),
{
    if retro_chars == 0 {
        v.len()
    } else if retro_chars <= v.len() {
        v.len() - retro_chars
    } else {
        0
    }
}

/// Byte offset where the last `retro_chars` characters of `before` start.
pub fn retro_start_index(before: &str, retro_chars: usize) -> (r: usize)
    ensures
        r == retro_start(before@, retro_chars as int),
{
    let v = chars_of(before);
    let _n = byte_len(before);
    let k = retro_char_index(&v, retro_chars);
    proof {
        crate::text::lemma_byte_at_strict(v@, k as int, v@.len() as int);
        crate::text::lemma_byte_at_total(v@);
    }
    byte_offset(&v, k)
}

/// The text of a paste without the bracketed-paste markers `[200~` and
/// `[201~` (what is left of `ESC[200~` and `ESC[201~` once the terminal
/// has eaten the escape), and whether each marker was there.
pub open spec fn bracket_info(text: Seq<char>) -> (Seq<char>, bool, bool) {
    let saw_start = contains_seq(text, "[200~"@);
    let saw_end = contains_seq(text, "[201~"@);
    if !saw_start && !saw_end {
        (text, false, false)
    } else {
        (replace_all(replace_all(text, "[200~"@, ""@), "[201~"@, ""@), saw_start, saw_end)
    }
}

/// Strips the bracketed-paste markers (see `bracket_info`).
pub fn bracket_marker_info(text: &str) -> (r: (String, bool, bool))
    ensures
        (r.0@, r.1, r.2) == bracket_info(text@),
{
    let saw_start = str_contains(text, "[200~");
    let saw_end = str_contains(text, "[201~");
    if !saw_start && !saw_end {
        return (string_of(&chars_of(text)), false, false);
    }
    let t = chars_of(text);
    let a = chars_replace(&t, &chars_of("[200~"), &chars_of(""));
    let b = chars_replace(&a, &chars_of("[201~"), &chars_of(""));
    (string_of(&b), saw_start, saw_end)
}

pub open spec fn pairs_view(v: Seq<(String, String)>) -> Seq<(Seq<char>, Seq<char>)> {
    v.map_values(|p: (String, String)| (p.0@, p.1@))
}

/// The placeholder text of a large paste of `n` characters.
pub open spec fn large_paste_base(n: nat) -> Seq<char> {
    "[Pasted Content "@ + decimal(n) + " chars]"@
}

/// How many of the pending entries have `base` in their placeholder.
pub open spec fn count_holding(pending: Seq<(Seq<char>, Seq<char>)>, base: Seq<char>) -> nat
    decreases pending.len(),
{
    if pending.len() == 0 {
        0
    } else {
        count_holding(pending.drop_last(), base) + if contains_seq(pending.last().0, base) {
            1nat
        } else {
            0nat
        }
    }
}

/// The placeholder for a new large paste of `n` characters: the base text,
/// with ` #k` added when `k - 1` pending pastes already use it.
pub open spec fn large_paste_placeholder(pending: Seq<(Seq<char>, Seq<char>)>, n: nat) -> Seq<
    char,
> {
    let base = large_paste_base(n);
    let d = count_holding(pending, base);
    if d == 0 {
        base
    } else {
        base + " #"@ + decimal(d + 1)
    }
}

/// The placeholder for a new large paste (see `large_paste_placeholder`).
pub fn next_large_paste_placeholder(pending: &[(String, String)], char_count: usize) -> (r: String)
    requires
        pending@.len() < usize::MAX,
    ensures
        r@ == large_paste_placeholder(pairs_view(pending@), char_count as nat),
{
    let mut base: Vec<char> = chars_of("[Pasted Content ");
    extend_chars(&mut base, &decimal_chars(char_count));
    extend_chars(&mut base, &chars_of(" chars]"));
    let ghost pv = pairs_view(pending@);
    let mut count: usize = 0;
    let mut i: usize = 0;
    while i < pending.len()
        invariant
            i <= pending@.len() < usize::MAX,
            pv == pairs_view(pending@),
            base@ == large_paste_base(char_count as nat),
            count == count_holding(pv.take(i as int), base@),
            count <= i,
        decreases pending@.len() - i,
    {
        proof {
            assert(pv.take(i + 1).drop_last() =~= pv.take(i as int));
            assert(pv.take(i + 1).last() == pv[i as int]);
        }
        if chars_contain(&chars_of(pending[i].0.as_str()), &base) {
            count = count + 1;
        }
        i = i + 1;
    }
    proof {
        assert(pv.take(pending@.len() as int) =~= pv);
    }
    if count == 0 {
        string_of(&base)
    } else {
        extend_chars(&mut base, &chars_of(" #"));
        extend_chars(&mut base, &decimal_chars(count + 1));
        string_of(&base)
    }
}

/// How many of `phs` have `base` in them.
pub open spec fn count_containing(phs: Seq<Seq<char>>, base: Seq<char>) -> nat
    decreases phs.len(),
{
    if phs.len() == 0 {
        0
    } else {
        count_containing(phs.drop_last(), base) + if contains_seq(phs.last(), base) {
            1nat
        } else {
            0nat
        }
    }
}

/// The placeholder for the next attached image, given the placeholders of
/// the images attached so far: `[Image n]` with `n` one more than their
/// number, and ` #k` added when `k - 1` of them already hold that text.
pub open spec fn image_placeholder(phs: Seq<Seq<char>>) -> Seq<char> {
    let base = "[Image "@ + decimal((phs.len() + 1) as nat) + "]"@;
    let d = count_containing(phs, base);
    if d == 0 {
        base
    } else {
        base + " #"@ + decimal(d + 1)
    }
}

/// The placeholder for the next attached image (see `image_placeholder`).
pub fn next_image_placeholder(placeholders: &[String]) -> (r: String)
    requires
        placeholders@.len() < usize::MAX,
    ensures
        r@ == image_placeholder(placeholders@.map_values(|s: String| s@)),
{
    let ghost pv = placeholders@.map_values(|s: String| s@);
    let mut base: Vec<char> = chars_of("[Image ");
    extend_chars(&mut base, &decimal_chars(placeholders.len() + 1));
    extend_chars(&mut base, &chars_of("]"));
    let mut count: usize = 0;
    let mut i: usize = 0;
    while i < placeholders.len()
        invariant
            i <= placeholders@.len() < usize::MAX,
            pv == placeholders@.map_values(|s: String| s@),
            base@ == "[Image "@ + decimal((pv.len() + 1) as nat) + "]"@,
            count == count_containing(pv.take(i as int), base@),
            count <= i,
        decreases placeholders@.len() - i,
    {
        proof {
            assert(pv.take(i + 1).drop_last() =~= pv.take(i as int));
            assert(pv.take(i + 1).last() == placeholders@[i as int]@);
        }
        if chars_contain(&chars_of(placeholders[i].as_str()), &base) {
            count = count + 1;
        }
        i = i + 1;
    }
    proof {
        assert(pv.take(placeholders@.len() as int) =~= pv);
    }
    if count == 0 {
        string_of(&base)
    } else {
        extend_chars(&mut base, &chars_of(" #"));
        extend_chars(&mut base, &decimal_chars(count + 1));
        string_of(&base)
    }
}

/// Line endings of a pasted text made `\n`: `\r\n` first, then a lone `\r`.
pub open spec fn unix_newlines(t: Seq<char>) -> Seq<char> {
    replace_all(replace_all(t, "\r\n"@, "\n"@), "\r"@, "\n"@)
}

/// A pasted text with its line endings made `\n` (see `unix_newlines`).
pub fn normalize_newlines(text: &str) -> (r: String)
    ensures
        r@ == unix_newlines(text@),
{
    let a = chars_replace(&chars_of(text), &chars_of("\r\n"), &chars_of("\n"));
    let b = chars_replace(&a, &chars_of("\r"), &chars_of("\n"));
    string_of(&b)
}

/// The pending entries whose placeholder is none of `removed`: what is
/// still in the input after an edit took elements out.
pub open spec fn still_present(pending: Seq<(Seq<char>, Seq<char>)>, removed: Seq<Seq<char>>) -> Seq<
    (Seq<char>, Seq<char>),
>
    decreases pending.len(),
{
    if pending.len() == 0 {
        pending
    } else {
        let rest = still_present(pending.drop_last(), removed);
        if removed.contains(pending.last().0) {
            rest
        } else {
            rest.push(pending.last())
        }
    }
}

/// Drops the pending entries (pastes, images or mentions, by the text
/// shown for them) whose element an edit removed.
pub fn forget_removed(pending: &mut Vec<(String, String)>, removed: &[String])
    ensures
        pairs_view(final(pending)@) == still_present(
            pairs_view(old(pending)@),
            removed@.map_values(|s: String| s@),
        ),
{
    let ghost pv = pairs_view(pending@);
    let ghost rv = removed@.map_values(|s: String| s@);
    let mut kept: Vec<(String, String)> = Vec::new();
    let mut i: usize = 0;
    while i < pending.len()
        invariant
            i <= pending@.len(),
            pv == pairs_view(pending@),
            rv == removed@.map_values(|s: String| s@),
            pairs_view(kept@) == still_present(pv.take(i as int), rv),
        decreases pending@.len() - i,
    {
        proof {
            assert(pv.take(i + 1).drop_last() =~= pv.take(i as int));
            assert(pv.take(i + 1).last() == pv[i as int]);
        }
        let mut found = false;
        let mut j: usize = 0;
        while j < removed.len()
            invariant
                i < pending@.len(),
                j <= removed@.len(),
                rv == removed@.map_values(|s: String| s@),
                pv == pairs_view(pending@),
                found == exists|k: int| 0 <= k < j && #[trigger] rv[k] == pv[i as int].0,
            decreases removed@.len() - j,
        {
            if crate::text::str_eq(removed[j].as_str(), pending[i].0.as_str()) {
                found = true;
            }
            proof {
                if removed@[j as int]@ == pv[i as int].0 {
                    assert(rv[j as int] == pv[i as int].0);
                }
            }
            j = j + 1;
        }
        proof {
            if found {
                let k = choose|k: int| 0 <= k < removed@.len() && #[trigger] rv[k] == pv[i as int].0;
                assert(rv.contains(pv[i as int].0));
            } else {
                assert(!rv.contains(pv[i as int].0)) by {
                    if rv.contains(pv[i as int].0) {
                        let k = choose|k: int| 0 <= k < rv.len() && rv[k] == pv[i as int].0;
                        assert(rv[k] == pv[i as int].0);
                    }
                }
            }
        }
        if !found {
            let ghost k0 = pairs_view(kept@);
            kept.push((pending[i].0.clone(), pending[i].1.clone()));
            proof {
                assert(pairs_view(kept@) =~= k0.push(pv[i as int]));
            }
        }
        i = i + 1;
    }
    proof {
        assert(pv.take(pending@.len() as int) =~= pv);
    }
    *pending = kept;
}

/// `text` with each pending placeholder, in order, replaced by its paste.
pub open spec fn expand_pastes(text: Seq<char>, pending: Seq<(Seq<char>, Seq<char>)>) -> Seq<char>
    decreases pending.len(),
{
    if pending.len() == 0 {
        text
    } else {
        replace_all(expand_pastes(text, pending.drop_last()), pending.last().0, pending.last().1)
    }
}

/// Puts the pasted contents back in place of their placeholders.
pub fn expand_pending_pastes(text: &str, pending: &[(String, String)]) -> (r: String)
    ensures
        r@ == expand_pastes(text@, pairs_view(pending@)),
{
    let ghost pv = pairs_view(pending@);
    let mut result = chars_of(text);
    let mut i: usize = 0;
    while i < pending.len()
        invariant
            i <= pending@.len(),
            pv == pairs_view(pending@),
            result@ == expand_pastes(text@, pv.take(i as int)),
        decreases pending@.len() - i,
    {
        proof {
            assert(pv.take(i + 1).drop_last() =~= pv.take(i as int));
            assert(pv.take(i + 1).last() == pv[i as int]);
        }
        result = chars_replace(
            &result,
            &chars_of(pending[i].0.as_str()),
            &chars_of(pending[i].1.as_str()),
        );
        i = i + 1;
    }
    proof {
        assert(pv.take(pending@.len() as int) =~= pv);
    }
    string_of(&result)
}

/// `text` with each file mention, in order, replaced by its absolute form
/// followed by a space (a trailing space after the mention is taken along).
pub open spec fn expand_mentions(text: Seq<char>, mentions: Seq<(Seq<char>, Seq<char>)>) -> Seq<
    char,
>
    decreases mentions.len(),
{
    if mentions.len() == 0 {
        text
    } else {
        let t = expand_mentions(text, mentions.drop_last());
        let d = mentions.last().0;
        let a = mentions.last().1 + " "@;
        replace_all(replace_all(t, d + " "@, a), d, a)
    }
}

/// Replaces the shown file mentions by the absolute paths they stand for.
pub fn expand_file_mentions(text: &str, mentions: &[(String, String)]) -> (r: String)
    ensures
        r@ == expand_mentions(text@, pairs_view(mentions@)),
{
    let ghost pv = pairs_view(mentions@);
    let space = chars_of(" ");
    let mut result = chars_of(text);
    let mut i: usize = 0;
    while i < mentions.len()
        invariant
            i <= mentions@.len(),
            pv == pairs_view(mentions@),
            space@ == " "@,
            result@ == expand_mentions(text@, pv.take(i as int)),
        decreases mentions@.len() - i,
    {
        proof {
            assert(pv.take(i + 1).drop_last() =~= pv.take(i as int));
            assert(pv.take(i + 1).last() == pv[i as int]);
        }
        let display = chars_of(mentions[i].0.as_str());
        let mut abs_spaced = chars_of(mentions[i].1.as_str());
        extend_chars(&mut abs_spaced, &space);
        let mut display_spaced = chars_of(mentions[i].0.as_str());
        extend_chars(&mut display_spaced, &space);
        let step = chars_replace(&result, &display_spaced, &abs_spaced);
        result = chars_replace(&step, &display, &abs_spaced);
        i = i + 1;
    }
    proof {
        assert(pv.take(mentions@.len() as int) =~= pv);
    }
    string_of(&result)
}

/// Whether a clipboard probe result belongs to the same paste as an image
/// already attached from a pasted file path, and is to be dropped: the
/// path came at most 11 s after the probe started, or the probe started
/// less than 500 ms after the path.
pub open spec fn suppressed(leak: Option<u64>, path: Option<u64>, now: u64) -> bool {
    match (leak, path) {
        (Some(l), Some(p)) => if p >= l {
            since(now, l) < 11000
        } else {
            since(l, p) < 500
        },
        _ => false,
    }
}

pub fn suppress_probe_result(leak_probe_at: Option<u64>, path_attached_at: Option<u64>, now: u64) -> (b:
    bool)
    ensures
        b == suppressed(leak_probe_at, path_attached_at, now),
{
    let (leak, path) = match (leak_probe_at, path_attached_at) {
        (Some(l), Some(p)) => (l, p),
        _ => return false,
    };
    if path >= leak {
        duration_since(now, leak) < 11000
    } else {
        duration_since(leak, path) < 500
    }
}

// ===== Laws of the paste detector =====

/// A detector that has seen nothing yet.
pub open spec fn fresh_burst(timeout: u64) -> PasteBurstView {
    PasteBurstView {
        last_plain_char_time: None,
        consecutive_plain_char_burst: 0,
        burst_window_until: None,
        buffer: Seq::empty(),
        active: false,
        pending_first_char: None,
        active_idle_timeout: timeout,
    }
}

/// On a fresh detector the first character is held back; a second one
/// within the burst interval starts a paste whose buffer begins with the
/// held character.
pub proof fn law_second_fast_char_starts_paste(timeout: u64, c1: char, c2: char, t1: u64, t2: u64)
    requires
        t1 <= t2,
        t2 - t1 <= PASTE_BURST_CHAR_INTERVAL_MS,
        time_ok(t2),
    ensures
        fresh_burst(timeout).on_char(c1, t1).0 == CharDecision::RetainFirstChar,
        ({
            let (d, s) = fresh_burst(timeout).on_char(c1, t1).1.on_char(c2, t2);
            &&& d == CharDecision::BeginBufferFromPending
            &&& s.active
            &&& s.buffer == seq![c1]
            &&& s.pending_first_char is None
        }),
{
    let s1 = fresh_burst(timeout).on_char(c1, t1).1;
    assert(s1.pending_first_char == Some((c1, t1)));
    assert(s1.noted(t2).held_recent(t2));
    assert(Seq::<char>::empty().push(c1) =~= seq![c1]);
}

/// A character held back on a fresh detector is due as typed text once the
/// burst interval has passed without another character.
pub proof fn law_held_char_flushes_as_typed(timeout: u64, c: char, t1: u64, t2: u64)
    requires
        t1 <= t2,
        t2 - t1 > PASTE_BURST_CHAR_INTERVAL_MS,
    ensures
        ({
            let s = fresh_burst(timeout).on_char(c, t1).1;
            &&& s.timed_out(t2)
            &&& !s.active_internal()
            &&& s.pending_first_char == Some((c, t1))
        }),
{
}

proof fn lemma_occurs_shift(s: Seq<char>, p: Seq<char>, i: int)
    requires
        s.len() > 0,
        occurs_at(s.skip(1), p, i),
    ensures
        occurs_at(s, p, i + 1),
{
    assert(s.subrange(i + 1, i + 1 + p.len()) =~= s.skip(1).subrange(i, i + p.len()));
}

/// Replacing a text that does not occur changes nothing.
proof fn lemma_replace_absent(s: Seq<char>, p: Seq<char>, r: Seq<char>)
    requires
        p.len() > 0,
        forall|i: int| !occurs_at(s, p, i),
    ensures
        replace_all(s, p, r) == s,
    decreases s.len(),
{
    if s.len() >= p.len() {
        assert(!occurs_at(s, p, 0));
        assert(s.subrange(0, p.len() as int) =~= s.take(p.len() as int));
        assert forall|i: int| !occurs_at(s.skip(1), p, i) by {
            if occurs_at(s.skip(1), p, i) {
                lemma_occurs_shift(s, p, i);
            }
        }
        lemma_replace_absent(s.skip(1), p, r);
        assert(seq![s[0]] + s.skip(1) =~= s);
    }
}

proof fn lemma_replace_unique(a: Seq<char>, p: Seq<char>, b: Seq<char>, r: Seq<char>)
    requires
        p.len() > 0,
        forall|i: int| occurs_at(a + p + b, p, i) ==> i == a.len(),
    ensures
        replace_all(a + p + b, p, r) == a + r + b,
    decreases a.len(),
{
    let s = a + p + b;
    if a.len() == 0 {
        assert(s.take(p.len() as int) =~= p);
        assert(s.skip(p.len() as int) =~= b);
        assert forall|i: int| !occurs_at(b, p, i) by {
            if occurs_at(b, p, i) {
                assert(s.subrange(p.len() + i, p.len() + i + p.len()) =~= b.subrange(i, i + p.len()));
                assert(occurs_at(s, p, p.len() + i));
            }
        }
        lemma_replace_absent(b, p, r);
        assert(a + r + b =~= r + b);
    } else {
        assert(!occurs_at(s, p, 0));
        assert(s.subrange(0, p.len() as int) =~= s.take(p.len() as int));
        let a1 = a.drop_first();
        assert(s.skip(1) =~= a1 + p + b);
        assert forall|i: int| occurs_at(a1 + p + b, p, i) implies i == a1.len() by {
            lemma_occurs_shift(s, p, i);
        }
        lemma_replace_unique(a1, p, b, r);
        assert(seq![s[0]] + (a1 + r + b) =~= a + r + b);
    }
}

/// A large paste comes back whole: a message holding its placeholder once,
/// with the placeholder occurring nowhere else, expands to the text around
/// it with the pasted content in its place.
pub proof fn law_placeholder_expands_to_paste(
    before: Seq<char>,
    placeholder: Seq<char>,
    after: Seq<char>,
    content: Seq<char>,
)
    requires
        placeholder.len() > 0,
        forall|i: int|
            occurs_at(before + placeholder + after, placeholder, i) ==> i == before.len(),
    ensures
        expand_pastes(before + placeholder + after, seq![(placeholder, content)]) == before + content
            + after,
{
    let pending = seq![(placeholder, content)];
    let text = before + placeholder + after;
    assert(pending.drop_last() =~= Seq::<(Seq<char>, Seq<char>)>::empty());
    assert(expand_pastes(text, pending.drop_last()) == text);
    assert(pending.last() == (placeholder, content));
    lemma_replace_unique(before, placeholder, after, content);
}

} // verus!

//! What sending a message changes in the chat before the request goes out:
//! the input is submitted and locked, the message joins the transcript,
//! the clock starts, the view follows the end again, and the pastes and
//! mentions waiting for the message are dropped.

use vstd::prelude::*;
use crate::chat_keys::ChatScroll;
use crate::input::{InputHandler, InputView};
use crate::picker::FilePickerState;
use crate::text::{chars_of, string_of};
use crate::timing::TimingStats;
use crate::transcript::{Message, MessageView, Transcript};

verus! {

/// A new session is titled by the first 50 characters of its first message.
pub open spec fn session_title(text: Seq<char>) -> Seq<char> {
    if text.len() <= 50 {
        text
    } else {
        text.take(50)
    }
}

/// The title of a session that starts with `text`.
pub fn title_of(text: &str) -> (t: String)
    ensures
        t@ == session_title(text@),
{
    let c = chars_of(text);
    let n: usize = if c.len() <= 50 {
        c.len()
    } else {
        50
    };
    let mut out: Vec<char> = Vec::new();
    let mut i: usize = 0;
    while i < n
        invariant
            i <= n <= c@.len(),
            out@ == c@.take(i as int),
        decreases n - i,
    {
        out.push(c[i]);
        assert(c@.take(i + 1) =~= c@.take(i as int).push(c@[i as int]));
        i = i + 1;
    }
    assert(c@.take(c@.len() as int) =~= c@);
    string_of(&out)
}

/// Sending `text` at `now`, in plan mode or not: the input box locks and
/// keeps `text` in its history, the transcript gains the user's message,
/// the request's clock starts (its pauses are left as they were), the view
/// scrolls back to the end and follows it, and the pastes and mentions
/// waiting for this message are dropped. When the message opens a new
/// session, the session's title is returned.
pub fn begin_user_turn(
    input: &mut InputHandler,
    transcript: &mut Transcript,
    timing: &mut TimingStats,
    scroll: &mut ChatScroll,
    pending_pastes: &mut Vec<(String, String)>,
    picker: &mut FilePickerState,
    text: &str,
    plan_mode: bool,
    new_session: bool,
    now: u64,
) -> (title: Option<String>)
    requires
        old(input).wf(),
    ensures
        final(input).wf(),
        final(input)@ == (InputView { processing: true, ..old(input)@ }).submitted(text@),
        final(transcript)@ == old(transcript)@.push(MessageView::User { text: text@, plan_mode }),
        *final(timing) == (TimingStats {
            user_msg_sent_at: Some(now),
            last_total_ms: None,
            ..*old(timing)
        }),
        *final(scroll) == (ChatScroll { offset: 0, auto_scroll: true }),
        final(pending_pastes)@.len() == 0,
        final(picker).pending_mentions@.len() == 0,
        final(picker).active == old(picker).active,
        final(picker).results@ == old(picker).results@,
        final(picker).selected == old(picker).selected,
        final(picker).cached == old(picker).cached,
        new_session ==> (title matches Some(t) && t@ == session_title(text@)),
        !new_session ==> title is None,
{
    input.set_processing(true);
    timing.user_msg_sent_at = Some(now);
    timing.last_total_ms = None;
    input.submit(text);
    pending_pastes.clear();
    picker.pending_mentions.clear();
    scroll.auto_scroll = true;
    scroll.offset = 0;
    transcript.push(Message::User { text: string_of(&chars_of(text)), plan_mode });
    if new_session {
        Some(title_of(text))
    } else {
        None
    }
}

} // verus!

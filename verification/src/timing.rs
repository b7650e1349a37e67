//! Request timing with pauses: time spent waiting in a dialog for the user
//! (a permission prompt, a question) does not count.
//!
//! Instants are milliseconds on a monotonic clock the caller reads, durations
//! are milliseconds.

use vstd::prelude::*;

verus! {

/// `now.duration_since(earlier)`: zero when `earlier` is later.
pub open spec fn since(now: u64, earlier: u64) -> int {
    if now >= earlier {
        now - earlier
    } else {
        0
    }
}

pub fn duration_since(now: u64, earlier: u64) -> (d: u64)
    ensures
        d == since(now, earlier),
{
    if now >= earlier {
        now - earlier
    } else {
        0
    }
}

/// Timing of the request in flight.
#[derive(Debug, Clone, Copy, PartialEq, Eq, Structural)]
pub struct TimingStats {
    pub user_msg_sent_at: Option<u64>,
    pub last_total_ms: Option<u64>,
    /// Total time spent paused so far.
    pub paused_total: u64,
    /// Start of the current pause, while a dialog waits for the user.
    pub paused_at: Option<u64>,
}

impl Default for TimingStats {
    fn default() -> (r: Self)
        ensures
            r == (TimingStats {
                user_msg_sent_at: None,
                last_total_ms: None,
                paused_total: 0,
                paused_at: None,
            }),
    {
        TimingStats::new()
    }
}

impl TimingStats {
    /// The state after `pause(now)`.
    pub open spec fn after_pause(self, now: u64) -> TimingStats {
        if self.user_msg_sent_at is Some && self.paused_at is None {
            TimingStats { paused_at: Some(now), ..self }
        } else {
            self
        }
    }

    /// The state after `resume(now)`.
    pub open spec fn after_resume(self, now: u64) -> TimingStats {
        match self.paused_at {
            Some(p) => TimingStats {
                paused_at: None,
                paused_total: (self.paused_total + since(now, p)) as u64,
                ..self
            },
            None => self,
        }
    }

    /// The state after `start_request(now)`.
    pub open spec fn after_start(self, now: u64) -> TimingStats {
        TimingStats {
            user_msg_sent_at: Some(now),
            last_total_ms: None,
            paused_total: 0,
            paused_at: None,
        }
    }

    pub fn new() -> (r: Self)
        ensures
            r == (TimingStats {
                user_msg_sent_at: None,
                last_total_ms: None,
                paused_total: 0,
                paused_at: None,
            }),
    {
        TimingStats { user_msg_sent_at: None, last_total_ms: None, paused_total: 0, paused_at: None }
    }

    /// Starts a pause at `now`; does nothing without a request in flight or
    /// when already paused.
    pub fn pause(&mut self, now: u64)
        ensures
            *final(self) == old(self).after_pause(now),
    {
        if self.user_msg_sent_at.is_some() && self.paused_at.is_none() {
            self.paused_at = Some(now);
        }
    }

    /// Ends the pause at `now` and adds its length to the paused total.
    pub fn resume(&mut self, now: u64)
        requires
            old(self).paused_at matches Some(p) ==> old(self).paused_total + since(now, p)
                <= u64::MAX,
        ensures
            *final(self) == old(self).after_resume(now),
    {
        if let Some(paused_at) = self.paused_at {
            self.paused_at = None;
            self.paused_total = self.paused_total + duration_since(now, paused_at);
        }
    }

    /// The send time moved later by the paused time (including a pause
    /// still running at `now`).
    pub open spec fn sent_at_after_pauses(self, now: u64) -> Option<int> {
        match self.user_msg_sent_at {
            Some(s) => Some(
                s + self.paused_total + match self.paused_at {
                    Some(p) => since(now, p),
                    None => 0,
                },
            ),
            None => None,
        }
    }

    pub open spec fn fits(self, now: u64) -> bool {
        self.sent_at_after_pauses(now) matches Some(t) ==> t <= u64::MAX
    }

    /// Send time after removing the paused time.
    pub fn effective_sent_at(&self, now: u64) -> (r: Option<u64>)
        requires
            self.fits(now),
        ensures
            match self.sent_at_after_pauses(now) {
                Some(t) => r == Some(t as u64),
                None => r is None,
            },
    {
        let sent_at = match self.user_msg_sent_at {
            Some(s) => s,
            None => return None,
        };
        let adjust = match self.paused_at {
            Some(p) => self.paused_total + duration_since(now, p),
            None => self.paused_total,
        };
        Some(sent_at + adjust)
    }

    /// Elapsed milliseconds at `now`, without the paused time.
    pub fn effective_elapsed_ms(&self, now: u64) -> (r: Option<u64>)
        requires
            self.fits(now),
        ensures
            match self.sent_at_after_pauses(now) {
                Some(t) => r == Some(since(now, t as u64) as u64),
                None => r is None,
            },
    {
        match self.effective_sent_at(now) {
            Some(t) => Some(duration_since(now, t)),
            None => None,
        }
    }

    /// Forgets the pauses.
    pub fn clear_pause(&mut self)
        ensures
            *final(self) == (TimingStats { paused_total: 0, paused_at: None, ..*old(self) }),
    {
        self.paused_total = 0;
        self.paused_at = None;
    }

    /// A new request is sent at `now`.
    pub fn start_request(&mut self, now: u64)
        ensures
            *final(self) == old(self).after_start(now),
    {
        self.user_msg_sent_at = Some(now);
        self.last_total_ms = None;
        self.clear_pause();
    }

    /// The request ends at `now`: its time without pauses is kept.
    pub fn finish(&mut self, now: u64)
        requires
            old(self).fits(now),
        ensures
            final(self).last_total_ms == (match old(self).sent_at_after_pauses(now) {
                Some(t) => Some(since(now, t as u64) as u64),
                None => None,
            }),
            final(self).user_msg_sent_at is None,
            final(self).paused_total == 0,
            final(self).paused_at is None,
    {
        self.last_total_ms = self.effective_elapsed_ms(now);
        self.user_msg_sent_at = None;
        self.clear_pause();
    }

    /// The request is dropped (error or cancel): no time is kept.
    pub fn abort(&mut self)
        ensures
            *final(self) == (TimingStats {
                user_msg_sent_at: None,
                paused_total: 0,
                paused_at: None,
                ..*old(self)
            }),
    {
        self.user_msg_sent_at = None;
        self.clear_pause();
    }
}

/// A request started at `s`, paused from `p` to `r`, and finished at `f`
/// counts the time before and after the pause only.
pub proof fn law_pause_not_counted(t: TimingStats, s: u64, p: u64, r: u64, f: u64)
    requires
        s <= p <= r <= f,
    ensures
        ({
            let done = t.after_start(s).after_pause(p).after_resume(r);
            &&& done.sent_at_after_pauses(f) == Some(s + (r - p))
            &&& since(f, (s + (r - p)) as u64) == (p - s) + (f - r)
        }),
{
}

/// Pausing twice keeps the first pause's start; resuming twice counts the
/// pause once.
pub proof fn law_pause_resume_idempotent(t: TimingStats, a: u64, b: u64, c: u64, d: u64)
    ensures
        t.paused_at is None ==> t.after_pause(a).after_pause(b) == t.after_pause(a),
        t.after_resume(c).after_resume(d) == t.after_resume(c),
{
}

/// The shown elapsed time stands still while the request is paused: at any
/// two instants after the pause began it is the time from the send to the
/// pause, less earlier pauses.
pub proof fn law_elapsed_frozen_while_paused(t: TimingStats, t1: u64, t2: u64)
    requires
        t.user_msg_sent_at is Some,
        t.paused_at matches Some(p) && p <= t1 && p <= t2,
        t.fits(t1),
        t.fits(t2),
    ensures
        ({
            let s = t.user_msg_sent_at.unwrap();
            let p = t.paused_at.unwrap();
            let e1 = since(t1, t.sent_at_after_pauses(t1).unwrap() as u64);
            let e2 = since(t2, t.sent_at_after_pauses(t2).unwrap() as u64);
            &&& e1 == e2
            &&& e1 == (if p >= s + t.paused_total {
                p - (s + t.paused_total)
            } else {
                0
            })
        }),
{
}

} // verus!

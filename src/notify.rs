use vstd::prelude::*;
use crate::config::{TIME_GAP_MAX_SECONDS, TIME_GAP_SECONDS, WINDOW_END, WINDOW_START};

verus! {

/// What the backoff timer holds: when the last notification went out (naive
/// local seconds since the epoch) and the current spacing, in seconds.
pub struct BackoffView {
    pub last: Option<int>,
    pub gap: int,
}

/// The spacing after one more notification: doubled, capped at the maximum.
pub open spec fn next_gap(gap: int) -> int {
    if 2 * gap > TIME_GAP_MAX_SECONDS {
        TIME_GAP_MAX_SECONDS as int
    } else {
        2 * gap
    }
}

/// A notification may go out at `now` (local seconds), whose time of day is
/// `tod`: inside the daily window, with a holder, and with more than the
/// spacing elapsed since the last one.
pub open spec fn eligible(b: BackoffView, now: int, tod: int, has_holder: bool) -> bool {
    &&& WINDOW_START <= tod <= WINDOW_END
    &&& has_holder
    &&& (b.last is None || now - b.last.unwrap() > b.gap)
}

/// Exponential backoff between notifications to the holder.
#[derive(Debug, Clone, Copy, PartialEq, Eq)]
pub struct Backoff {
    last_time: Option<i64>,
    gap: i64,
}

impl View for Backoff {
    type V = BackoffView;

    closed spec fn view(&self) -> BackoffView {
        BackoffView {
            last: match self.last_time {
                Some(t) => Some(t as int),
                None => None,
            },
            gap: self.gap as int,
        }
    }
}

impl Backoff {
    /// The spacing stays between its base and its maximum.
    pub open spec fn wf(&self) -> bool {
        TIME_GAP_SECONDS <= self@.gap <= TIME_GAP_MAX_SECONDS
    }

    /// No notification yet, base spacing.
    pub fn new() -> (r: Backoff)
        ensures
            r.wf(),
            r@.last is None,
            r@.gap == TIME_GAP_SECONDS,
    {
        Backoff { last_time: None, gap: TIME_GAP_SECONDS }
    }

    /// Current spacing, in seconds.
    pub fn gap(&self) -> (r: i64)
        ensures
            r as int == self@.gap,
    {
        self.gap
    }

    /// When the last notification went out, if any.
    pub fn last_time(&self) -> (r: Option<i64>)
        ensures
            r matches Some(t) ==> self@.last == Some(t as int),
            r is None ==> self@.last is None,
    {
        self.last_time
    }

    /// Back to the base spacing; the time of the last notification stays.
    pub fn reset(&mut self)
        requires
            old(self).wf(),
        ensures
            final(self).wf(),
            final(self)@ == (BackoffView { gap: TIME_GAP_SECONDS as int, ..old(self)@ }),
    {
        self.gap = TIME_GAP_SECONDS;
    }

    /// Whether a notification may go out now (see `eligible`).
    pub fn is_eligible(&self, now: i64, tod: i64, has_holder: bool) -> (r: bool)
        requires
            self.wf(),
        ensures
            r == eligible(self@, now as int, tod as int, has_holder),
    {
        let since = match self.last_time {
            None => true,
            Some(t) => (now as i128) - (t as i128) > self.gap as i128,
        };
        WINDOW_START <= tod && tod <= WINDOW_END && has_holder && since
    }

    /// Notes a notification sent at `now` and doubles the spacing, up to the maximum.
    pub fn record(&mut self, now: i64)
        requires
            old(self).wf(),
        ensures
            final(self).wf(),
            final(self)@.last == Some(now as int),
            final(self)@.gap == next_gap(old(self)@.gap),
    {
        self.last_time = Some(now);
        self.gap = self.gap * 2;
        if self.gap > TIME_GAP_MAX_SECONDS {
            self.gap = TIME_GAP_MAX_SECONDS;
        }
    }
}

/// Base spacing doubled `n` times, without a cap.
pub open spec fn doubled(n: nat) -> int
    decreases n,
{
    if n == 0 {
        TIME_GAP_SECONDS as int
    } else {
        2 * doubled((n - 1) as nat)
    }
}

/// Spacing after `n` notifications from the base.
pub open spec fn gap_after(n: nat) -> int
    decreases n,
{
    if n == 0 {
        TIME_GAP_SECONDS as int
    } else {
        next_gap(gap_after((n - 1) as nat))
    }
}

/// Starting from the base, the spacing after `k` notifications is the base
/// times `2^k` up to eight notifications (2560 s), and the maximum from the
/// ninth on.
pub proof fn lemma_backoff_after(k: nat)
    ensures
        k <= 8 ==> gap_after(k) == doubled(k) && doubled(k) <= 2560,
        k >= 9 ==> gap_after(k) == TIME_GAP_MAX_SECONDS,
    decreases k,
{
    reveal_with_fuel(doubled, 10);
    reveal_with_fuel(gap_after, 10);
    if k > 9 {
        lemma_backoff_after((k - 1) as nat);
    } else if k <= 8 {
        assert(k == 0 || k == 1 || k == 2 || k == 3 || k == 4 || k == 5 || k == 6 || k == 7 || k == 8);
    }
}

/// The spacing doubles with each notification until it reaches the maximum,
/// and stays there.
pub proof fn lemma_backoff_saturates(n: nat)
    ensures
        doubled(n) <= TIME_GAP_MAX_SECONDS ==> gap_after(n) == doubled(n),
        doubled(n) > TIME_GAP_MAX_SECONDS ==> gap_after(n) == TIME_GAP_MAX_SECONDS,
        doubled(n) > 0,
    decreases n,
{
    if n > 0 {
        lemma_backoff_saturates((n - 1) as nat);
    }
}

} // verus!

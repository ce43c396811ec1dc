//! Feedback-switch pulse recognition.
//!
//! A qualifying pulse is a release of the feedback switch after it was
//! held active between fifty and five hundred milliseconds.  Times are
//! microsecond counts from an arbitrary start.

use vstd::prelude::*;

verus! {

/// Shortest press that counts as a pulse, in microseconds.
pub const MIN_PULSE_US: u64 = 50000;

/// Longest press that counts as a pulse, in microseconds.
pub const MAX_PULSE_US: u64 = 500000;

/// Time from `last` to `now`, clamped below at zero.
pub open spec fn elapsed(last: int, now: int) -> int {
    if now >= last {
        now - last
    } else {
        0
    }
}

/// Whether recording the new reading `state` at `now` completes a
/// qualifying pulse: the switch is released (reading `true`) after it
/// was recorded active (reading `false`) between fifty and five hundred
/// milliseconds ago.
pub open spec fn spec_pulse(last_event: Option<(bool, u64)>, state: bool, now: u64) -> bool {
    match last_event {
        Some((last_state, last_time)) => state && !last_state && MIN_PULSE_US <= elapsed(
            last_time as int,
            now as int,
        ) <= MAX_PULSE_US,
        None => false,
    }
}

/// Turns raw feedback readings into "a manual feed pulse happened"
/// signals.
pub struct FeedbackInputRecognizer {
    last_event: Option<(bool, u64)>,
}

impl FeedbackInputRecognizer {
    /// The reading recorded last, with its time.
    pub closed spec fn last(&self) -> Option<(bool, u64)> {
        self.last_event
    }

    /// A fresh recognizer with no reading recorded.
    pub fn new() -> (r: FeedbackInputRecognizer)
        ensures
            r.last() is None,
    {
        FeedbackInputRecognizer { last_event: None }
    }

    /// Records the reading `state` at time `now` and says whether that
    /// completes a qualifying pulse.
    pub fn update(&mut self, state: bool, now: u64) -> (r: bool)
        ensures
            r == spec_pulse(old(self).last(), state, now),
            final(self).last() == Some((state, now)),
    {
        let mut should_feed: bool = false;
        if let Some((last_state, last_time)) = self.last_event {
            let elapsed_us: u64 = if now >= last_time {
                now - last_time
            } else {
                0
            };
            if state && !last_state && MIN_PULSE_US <= elapsed_us && elapsed_us <= MAX_PULSE_US {
                should_feed = true;
            }
        }
        self.last_event = Some((state, now));
        should_feed
    }

    /// Forgets the recorded reading, so the switch cycling of a feed the
    /// controller itself commanded is not mistaken for a pulse.
    pub fn reset(&mut self)
        ensures
            final(self).last() is None,
    {
        self.last_event = None;
    }
}

} // verus!

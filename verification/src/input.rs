//! The feedback-input capability interface and a settable fake.
//!
//! A feeder owns exactly one `Input`.  Reading the level must not change
//! the handle; waiting for edges is the concern of the task that drives
//! the feeder, outside the library.

use vstd::prelude::*;

verus! {

/// What a feeder asks of its feedback input: the logical level, `true`
/// meaning "active: the previous part has not cleared".
pub trait Input: Sized {
    /// The level the input reports.
    spec fn state(&self) -> bool;

    /// Reads the level without disturbing the handle.
    fn get_state(&mut self) -> (r: bool)
        ensures
            *final(self) == *old(self),
            r == old(self).state(),
    ;
}

/// A feedback input whose level tests and simulators set directly.
pub struct SimInput {
    level: bool,
}

impl SimInput {
    /// An input reporting the given level.
    pub fn new(level: bool) -> (r: SimInput)
        ensures
            r.state() == level,
    {
        SimInput { level }
    }

    /// Drives the level, as the mechanics would.
    pub fn set_level(&mut self, level: bool)
        ensures
            final(self).state() == level,
    {
        self.level = level;
    }
}

impl Input for SimInput {
    closed spec fn state(&self) -> bool {
        self.level
    }

    fn get_state(&mut self) -> (r: bool) {
        self.level
    }
}

} // verus!

//! The root state: how often the indexer was reset.
use vstd::prelude::*;

verus! {

/// The most reset counts the root state keeps track of.
pub const MAX_COUNT: u64 = 1_000;

/// How many resets have happened, with and without side effects.
#[derive(Clone, Copy, Debug, PartialEq, Eq, Structural)]
pub struct State {
    pub reset_count: u64,
    pub reset_including_side_effects_count: u64,
}

impl State {
    /// A root state with no reset yet.
    pub fn new() -> (state: State)
        ensures
            state == (State { reset_count: 0, reset_including_side_effects_count: 0 }),
    {
        State { reset_count: 0, reset_including_side_effects_count: 0 }
    }

    /// Records the reset count.
    pub fn update_reset_count(&mut self, count: u64)
        ensures
            *final(self) == (State { reset_count: count, ..*old(self) }),
    {
        self.reset_count = count;
    }

    /// Records the count of resets that included side effects.
    pub fn update_reset_including_side_effects_count(&mut self, count: u64)
        ensures
            *final(self) == (State { reset_including_side_effects_count: count, ..*old(self) }),
    {
        self.reset_including_side_effects_count = count;
    }
}

impl Default for State {
    fn default() -> (state: State)
        ensures
            state == (State { reset_count: 0, reset_including_side_effects_count: 0 }),
    {
        State::new()
    }
}

} // verus!

verus! {

/// The root state to record when the configured reset count is above the last
/// recorded one (`None` when no reset is due): the last state with the new count.
pub open spec fn reset_plan(reset_count: u64, last: Option<State>) -> Option<State> {
    let last_count = match last {
        Some(s) => s.reset_count,
        None => 0,
    };
    if reset_count > last_count {
        Some(State { reset_count, ..last->0 })
    } else {
        None
    }
}

/// Whether a reset is due, and the root state to record after it. A reset can only
/// be due once a root state was recorded.
pub fn maybe_reset(reset_count: u64, last: Option<State>) -> (next: Option<State>)
    requires
        last is None ==> reset_count == 0,
    ensures
        next == reset_plan(reset_count, last),
{
    let last_count = match last {
        Some(s) => s.reset_count,
        None => 0,
    };
    if reset_count > last_count {
        match last {
            Some(s) => {
                let mut next = s;
                next.update_reset_count(reset_count);
                Some(next)
            },
            None => None,
        }
    } else {
        None
    }
}

} // verus!

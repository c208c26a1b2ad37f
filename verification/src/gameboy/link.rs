use vstd::prelude::*;

verus! {

/// One of two machines that a link cable joins.
#[derive(Copy, Clone, Debug, PartialEq, Eq, Structural)]
pub enum LinkSide {
    First,
    Second,
}

/// The lead of the second machine over the first once the machine whose
/// turn it is has run `cycles` cycles more: the first machine runs while it
/// is not ahead, the second otherwise.
pub open spec fn lead_after(lead: int, cycles: int) -> int {
    if lead >= 0 {
        lead - cycles
    } else {
        lead + cycles
    }
}

/// Two linked machines never drift further apart than the longest single
/// run of either.
pub proof fn lemma_lead_bounded(lead: int, cycles: int, bound: int)
    requires
        -bound <= lead < bound,
        0 <= cycles <= bound,
    ensures
        -bound <= lead_after(lead, cycles) < bound,
{
}

/// Keeps two linked machines in step for one frame: the machine that lags
/// behind runs next.
pub struct LinkSync {
    delta: i64,
    first_done: bool,
    second_done: bool,
}

/// What a `LinkSync` stands for.
pub struct LinkState {
    /// Cycles that the second machine is ahead of the first; negative where
    /// the first is ahead.
    pub lead: int,
    /// Whether the first machine has finished its frame.
    pub first_done: bool,
    /// Whether the second machine has finished its frame.
    pub second_done: bool,
}

impl View for LinkSync {
    type V = LinkState;

    closed spec fn view(&self) -> LinkState {
        LinkState {
            lead: self.delta as int,
            first_done: self.first_done,
            second_done: self.second_done,
        }
    }
}

/// The machine that runs next, or `None` once both have finished the frame.
pub open spec fn turn(state: LinkState) -> Option<LinkSide> {
    if state.first_done && state.second_done {
        None
    } else if state.lead >= 0 {
        Some(LinkSide::First)
    } else {
        Some(LinkSide::Second)
    }
}

/// The state after the machine whose turn it is has run `cycles` cycles and
/// has or has not reached the end of its frame.
pub open spec fn ran(state: LinkState, cycles: u32, frame_ended: bool) -> LinkState {
    if state.lead >= 0 {
        LinkState {
            lead: state.lead - cycles,
            first_done: state.first_done || frame_ended,
            second_done: state.second_done,
        }
    } else {
        LinkState {
            lead: state.lead + cycles,
            first_done: state.first_done,
            second_done: state.second_done || frame_ended,
        }
    }
}

impl LinkSync {
    #[verifier::type_invariant]
    spec fn bounded(self) -> bool {
        -0xFFFF_FFFF <= self.delta <= 0xFFFF_FFFF
    }

    /// The start of a frame: neither machine is ahead.
    pub fn new() -> (sync: Self)
        ensures
            sync@ == (LinkState { lead: 0, first_done: false, second_done: false }),
    {
        LinkSync { delta: 0, first_done: false, second_done: false }
    }

    /// The machine to run next, or `None` once both have finished the frame.
    pub fn next(&self) -> (side: Option<LinkSide>)
        ensures
            side == turn(self@),
    {
        if self.first_done && self.second_done {
            None
        } else if self.delta >= 0 {
            Some(LinkSide::First)
        } else {
            Some(LinkSide::Second)
        }
    }

    /// Takes note that the machine whose turn it was has run `cycles`
    /// cycles, and whether it reached the end of its frame in them.
    pub fn record(&mut self, cycles: u32, frame_ended: bool)
        ensures
            final(self)@ == ran(old(self)@, cycles, frame_ended),
            final(self)@.lead == lead_after(old(self)@.lead, cycles as int),
    {
        proof {
            use_type_invariant(&*self);
        }
        if self.delta >= 0 {
            self.delta = self.delta - cycles as i64;
            self.first_done = self.first_done || frame_ended;
        } else {
            self.delta = self.delta + cycles as i64;
            self.second_done = self.second_done || frame_ended;
        }
    }
}

} // verus!

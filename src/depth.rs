//! The escape-time budget of the viewer and its two adjustments.

use vstd::prelude::*;

verus! {

/// The step by which the budget grows or shrinks, and also its floor.
pub const DEPTH_STEP: u32 = 100;

/// The budget the viewer starts with.
pub const INITIAL_DEPTH: u32 = 10000;

/// The budget after one increase: exactly one step more, with no cap.
pub open spec fn increased(d: nat) -> nat {
    d + DEPTH_STEP as nat
}

/// The budget after one decrease: one step less, but never below the floor.
pub open spec fn decreased(d: nat) -> nat {
    if d >= 2 * DEPTH_STEP {
        (d - DEPTH_STEP) as nat
    } else {
        DEPTH_STEP as nat
    }
}

/// The escape-time cutoff: how many times `z <- z*z + c` is applied before a
/// sample is taken to lie inside the set.
pub struct Depth {
    max_iterations: u32,
}

impl View for Depth {
    type V = nat;

    closed spec fn view(&self) -> nat {
        self.max_iterations as nat
    }
}

impl Depth {
    /// A budget never falls below the floor.
    pub open spec fn wf(&self) -> bool {
        self@ >= DEPTH_STEP
    }

    pub fn new(max_iterations: u32) -> (r: Depth)
        requires
            max_iterations >= DEPTH_STEP,
        ensures
            r@ == max_iterations,
            r.wf(),
    {
        Depth { max_iterations }
    }

    /// The budget the viewer starts with.
    pub fn initial() -> (r: Depth)
        ensures
            r@ == INITIAL_DEPTH,
            r.wf(),
    {
        Depth::new(INITIAL_DEPTH)
    }

    pub fn max_iterations(&self) -> (r: u32)
        ensures
            r == self@,
    {
        self.max_iterations
    }

    /// Whether one more step still fits in a `u32`.
    pub fn can_increase(&self) -> (r: bool)
        ensures
            r == (increased(self@) <= u32::MAX),
    {
        self.max_iterations <= u32::MAX - DEPTH_STEP
    }

    pub fn increase_depth(&mut self)
        requires
            old(self).wf(),
            increased(old(self)@) <= u32::MAX,
        ensures
            final(self)@ == increased(old(self)@),
            final(self).wf(),
    {
        self.max_iterations = self.max_iterations + DEPTH_STEP;
    }

    pub fn decrease_depth(&mut self)
        requires
            old(self).wf(),
        ensures
            final(self)@ == decreased(old(self)@),
            final(self).wf(),
    {
        if self.max_iterations >= 2 * DEPTH_STEP {
            self.max_iterations = self.max_iterations - DEPTH_STEP;
        } else {
            self.max_iterations = DEPTH_STEP;
        }
    }
}

/// A decrease at the floor leaves the budget at the floor, and no decrease
/// ever takes a valid budget below it.
pub proof fn lemma_decrease_saturates(d: nat)
    requires
        d >= DEPTH_STEP,
    ensures
        decreased(d) >= DEPTH_STEP,
        d == DEPTH_STEP ==> decreased(d) == DEPTH_STEP,
{
}

/// An increase adds exactly one step, and a decrease undoes it; away from the
/// floor, a decrease followed by an increase also restores the budget.
pub proof fn lemma_increase_inverts_decrease(d: nat)
    requires
        d >= DEPTH_STEP,
    ensures
        increased(d) == d + DEPTH_STEP,
        decreased(increased(d)) == d,
        d >= 2 * DEPTH_STEP ==> increased(decreased(d)) == d,
{
}

} // verus!

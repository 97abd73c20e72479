//! The Work and Break phases of the timer.

use vstd::prelude::*;

verus! {

/// The two alternating phases of the timer.
#[derive(Clone, Copy, Debug, PartialEq, Eq, Structural)]
pub enum Phase {
    Work,
    Break,
}

impl Phase {
    /// The phase that follows this one.
    pub open spec fn following(self) -> Phase {
        match self {
            Phase::Work => Phase::Break,
            Phase::Break => Phase::Work,
        }
    }

    /// The heading shown for this phase.
    pub fn label(self) -> (s: &'static str)
        ensures
            self == Phase::Work ==> s@ == "Work"@,
            self == Phase::Break ==> s@ == "Break"@,
    {
        match self {
            Phase::Work => "Work",
            Phase::Break => "Break",
        }
    }

    /// Work is followed by Break and Break by Work.
    pub fn next(self) -> (p: Phase)
        ensures
            p == self.following(),
    {
        match self {
            Phase::Work => Phase::Break,
            Phase::Break => Phase::Work,
        }
    }
}

/// Advancing twice returns to the same phase, and advancing once always
/// changes the phase.
pub proof fn lemma_next_alternates(p: Phase)
    ensures
        p.following().following() == p,
        p.following() != p,
{
}

} // verus!

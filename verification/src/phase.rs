//! Per-phase timing of a prediction, for diagnostics. In this build every
//! probe does nothing: `start` gives no instant, `add` records nothing, and
//! `take` gives nine zeros.

use vstd::prelude::*;

verus! {

/// The phases a prediction goes through, in the order of [`Phase::name`].
#[derive(Debug, Clone, Copy, PartialEq, Eq, Structural)]
pub enum Phase {
    /// The whole prediction (normalisation, brackets, mapping back).
    Total,
    /// Input normalisation.
    Normalize,
    /// Text to units, and the name dictionary.
    Source,
    /// Feature keys.
    Featurize,
    /// Vocabulary lookups.
    Resolve,
    /// The loop over the units (reading and boundary included).
    Loop,
    /// Reading scores and their argmax.
    Read,
    /// Boundary scores.
    Boundary,
    /// Trimming and the source-to-reading table.
    Finalize,
}

impl Phase {
    /// Position of the phase in the table `take` returns.
    pub open spec fn spec_index(self) -> nat {
        match self {
            Phase::Total => 0,
            Phase::Normalize => 1,
            Phase::Source => 2,
            Phase::Featurize => 3,
            Phase::Resolve => 4,
            Phase::Loop => 5,
            Phase::Read => 6,
            Phase::Boundary => 7,
            Phase::Finalize => 8,
        }
    }

    /// Position of the phase in the table `take` returns.
    pub fn index(self) -> (i: usize)
        ensures
            i == self.spec_index(),
    {
        match self {
            Phase::Total => 0,
            Phase::Normalize => 1,
            Phase::Source => 2,
            Phase::Featurize => 3,
            Phase::Resolve => 4,
            Phase::Loop => 5,
            Phase::Read => 6,
            Phase::Boundary => 7,
            Phase::Finalize => 8,
        }
    }

    /// The name of the phase, as its characters.
    pub open spec fn spec_name(self) -> Seq<char> {
        match self {
            Phase::Total => seq!['t', 'o', 't', 'a', 'l'],
            Phase::Normalize => seq!['n', 'o', 'r', 'm', 'a', 'l', 'i', 'z', 'e'],
            Phase::Source => seq!['s', 'o', 'u', 'r', 'c', 'e'],
            Phase::Featurize => seq!['f', 'e', 'a', 't', 'u', 'r', 'i', 'z', 'e'],
            Phase::Resolve => seq!['r', 'e', 's', 'o', 'l', 'v', 'e'],
            Phase::Loop => seq!['l', 'o', 'o', 'p'],
            Phase::Read => seq!['r', 'e', 'a', 'd'],
            Phase::Boundary => seq!['b', 'o', 'u', 'n', 'd', 'a', 'r', 'y'],
            Phase::Finalize => seq!['f', 'i', 'n', 'a', 'l', 'i', 'z', 'e'],
        }
    }

    /// The name of the phase.
    pub fn name(self) -> (s: &'static str)
        ensures
            s@ == self.spec_name(),
    {
        match self {
            Phase::Total => {
                proof {
                    reveal_strlit("total");
                }
                "total"
            },
            Phase::Normalize => {
                proof {
                    reveal_strlit("normalize");
                }
                "normalize"
            },
            Phase::Source => {
                proof {
                    reveal_strlit("source");
                }
                "source"
            },
            Phase::Featurize => {
                proof {
                    reveal_strlit("featurize");
                }
                "featurize"
            },
            Phase::Resolve => {
                proof {
                    reveal_strlit("resolve");
                }
                "resolve"
            },
            Phase::Loop => {
                proof {
                    reveal_strlit("loop");
                }
                "loop"
            },
            Phase::Read => {
                proof {
                    reveal_strlit("read");
                }
                "read"
            },
            Phase::Boundary => {
                proof {
                    reveal_strlit("boundary");
                }
                "boundary"
            },
            Phase::Finalize => {
                proof {
                    reveal_strlit("finalize");
                }
                "finalize"
            },
        }
    }
}

/// Starts timing a phase (nothing to time in this build).
pub fn start() {
}

/// Adds the time since `t` to `phase` (nothing is recorded in this build).
pub fn add(phase: Phase, t: ()) {
}

/// The time of every phase since the last call, which it resets: nine zeros
/// in this build.
pub fn take() -> (r: [u128; 9])
    ensures
        forall|i: int| 0 <= i < 9 ==> r@[i] == 0,
{
    [0u128; 9]
}

/// Times a scope (nothing is timed in this build).
pub struct Guard;

impl Guard {
    pub fn new(phase: Phase) -> (g: Guard) {
        Guard
    }
}

} // verus!

//! Rule configuration: survive/birth neighbor-count sets, the neighborhood
//! topology, and the state value given to cells that are alive after a step.

use vstd::prelude::*;

verus! {

/// Which offsets count as neighbors of a cell.
#[derive(Clone, Copy, PartialEq, Eq, Structural, Debug)]
pub enum Neighbourhood {
    /// All 26 cells within Chebyshev distance 1.
    Moore,
    /// The 6 axis-aligned unit-distance cells.
    VonNeumann,
}

/// A rule: a living cell stays alive when its neighbor count is in `survive`,
/// a dead cell becomes alive when its count is in `birth`, and every cell that
/// is alive after a step (and every cell that just died by failing `survive`)
/// has its counter set to `state`.
pub struct Rule {
    pub survive: Vec<u32>,
    pub birth: Vec<u32>,
    pub neighbourhood: Neighbourhood,
    pub state: u8,
}

impl Rule {
    /// Explicit constructor: every field is supplied, none is defaulted.
    pub fn new(survive: Vec<u32>, birth: Vec<u32>, neighbourhood: Neighbourhood, state: u8) -> (r: Rule)
        ensures
            r.survive@ == survive@,
            r.birth@ == birth@,
            r.neighbourhood == neighbourhood,
            r.state == state,
    {
        Rule { survive, birth, neighbourhood, state }
    }
}

} // verus!

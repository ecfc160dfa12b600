use vstd::prelude::*;

verus! {

/// The XPBD solver. It holds no state of its own: every step reads the
/// scene, the control input and the incoming state, and writes the
/// outgoing state.
pub struct XPBDSolver {}

impl XPBDSolver {
    /// Creates a solver.
    pub fn new() -> (s: Self)
        ensures
            s == (XPBDSolver {}),
    {
        XPBDSolver {}
    }
}

} // verus!

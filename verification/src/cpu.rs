//! A model of the core's register file.

use vstd::prelude::*;

verus! {

/// The registers of the core that the reset and trap vectors read or write:
/// the thirty-two general registers `x0` to `x31` and the four scratch
/// registers `q0` to `q3`, which only trap handling can reach.
pub struct Cpu {
    /// The general registers, by architectural number.
    pub x: [u32; 32],
    /// The scratch registers.  While a trap runs, `q1` holds the bitmask of
    /// the interrupts to be serviced.
    pub q: [u32; 4],
}

impl Clone for Cpu {
    fn clone(&self) -> (copy: Self)
        ensures
            copy == *self,
    {
        *self
    }
}

impl Copy for Cpu {

}

} // verus!

//! The four named coefficients of the step: reflection, expansion,
//! contraction and shrink.

use vstd::prelude::*;

use crate::scalar::{ONE_BITS, TWO_BITS, HALF_BITS};

verus! {

/// The step coefficients.  Each is a scalar bit pattern; no combination is
/// rejected, though a nonsensical one yields poor convergence rather than
/// an error.
#[derive(Clone, Copy)]
pub struct Params {
    pub alpha: u64,
    pub gamma: u64,
    pub rho: u64,
    pub delta: u64,
}

impl Params {
    /// The conventional coefficients: reflection one, expansion two,
    /// contraction one half, shrink one half.
    pub fn default() -> (r: Params)
        ensures
            r.alpha == ONE_BITS,
            r.gamma == TWO_BITS,
            r.rho == HALF_BITS,
            r.delta == HALF_BITS,
    {
        Params { alpha: ONE_BITS, gamma: TWO_BITS, rho: HALF_BITS, delta: HALF_BITS }
    }
}

} // verus!

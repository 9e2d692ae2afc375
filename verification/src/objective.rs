//! The function being optimized, as a capability handed to the solver: a
//! pure mapping from a point of a fixed dimension to a scalar value.

use vstd::prelude::*;

use crate::scalar::{add_of, sub_of, mul_of, NEG_ONE_BITS};
use crate::scalar::{fadd, fsub, fmul};

verus! {

/// An objective function.  `value_spec` is the mathematical account of the
/// function; `eval` must return exactly that value, so that every run of
/// the solver is a function of its inputs.
pub trait Objective {
    /// The dimension of the points the objective accepts.
    spec fn dim_spec(&self) -> nat;

    /// The value of the objective at a point.
    spec fn value_spec(&self, p: Seq<u64>) -> u64;

    /// The dimension, as callers can read it.
    fn dim(&self) -> (n: usize)
        ensures
            n as nat == self.dim_spec(),
    ;

    /// Evaluates the objective at a point of its dimension.
    fn eval(&self, p: &Vec<u64>) -> (r: u64)
        requires
            p@.len() == self.dim_spec(),
        ensures
            r == self.value_spec(p@),
    ;
}

/// A quadratic-with-linear-part objective: the constant term plus, for each
/// dimension, a quadratic coefficient times the square of the shifted
/// coordinate, plus a linear coefficient times the coordinate.  The terms
/// are accumulated left to right.  Rich enough to pose the usual benchmark
/// problems while staying fully verified.
pub struct Quadratic {
    quad: Vec<u64>,
    shift: Vec<u64>,
    lin: Vec<u64>,
    constant: u64,
}

impl Quadratic {
    /// The quadratic coefficients.
    pub closed spec fn quad_spec(&self) -> Seq<u64> {
        self.quad@
    }

    /// The per-dimension shifts.
    pub closed spec fn shift_spec(&self) -> Seq<u64> {
        self.shift@
    }

    /// The linear coefficients.
    pub closed spec fn lin_spec(&self) -> Seq<u64> {
        self.lin@
    }

    /// The constant term.
    pub closed spec fn constant_spec(&self) -> u64 {
        self.constant
    }

    /// The coefficient vectors all agree on the dimension.
    #[verifier::type_invariant]
    pub closed spec fn wf(&self) -> bool {
        self.shift@.len() == self.quad@.len() && self.lin@.len() == self.quad@.len()
    }

    /// The term the dimension `j` contributes at `p`.
    pub open spec fn term_spec(&self, p: Seq<u64>, j: int) -> u64 {
        add_of(
            mul_of(
                self.quad_spec()[j],
                mul_of(sub_of(p[j], self.shift_spec()[j]), sub_of(p[j], self.shift_spec()[j])),
            ),
            mul_of(self.lin_spec()[j], p[j]),
        )
    }

    /// The constant term plus the first `k` dimension terms, left to right.
    pub open spec fn acc_spec(&self, p: Seq<u64>, k: int) -> u64
        decreases k,
    {
        if k <= 0 {
            self.constant_spec()
        } else {
            add_of(self.acc_spec(p, k - 1), self.term_spec(p, k - 1))
        }
    }

    /// Builds the objective; refused when the coefficient vectors disagree
    /// on the dimension.
    pub fn new(quad: Vec<u64>, shift: Vec<u64>, lin: Vec<u64>, constant: u64) -> (r: Option<
        Quadratic,
    >)
        ensures
            match r {
                Some(q) => {
                    &&& q.quad_spec() == quad@
                    &&& q.shift_spec() == shift@
                    &&& q.lin_spec() == lin@
                    &&& q.constant_spec() == constant
                },
                None => !(shift@.len() == quad@.len() && lin@.len() == quad@.len()),
            },
    {
        if shift.len() == quad.len() && lin.len() == quad.len() {
            Some(Quadratic { quad, shift, lin, constant })
        } else {
            None
        }
    }
}

impl Objective for Quadratic {
    closed spec fn dim_spec(&self) -> nat {
        self.quad@.len()
    }

    open spec fn value_spec(&self, p: Seq<u64>) -> u64 {
        self.acc_spec(p, self.dim_spec() as int)
    }

    fn dim(&self) -> (n: usize)
    {
        self.quad.len()
    }

    fn eval(&self, p: &Vec<u64>) -> (r: u64)
    {
        proof {
            use_type_invariant(self);
        }
        let mut acc = self.constant;
        let mut i: usize = 0;
        while i < self.quad.len()
            invariant
                i <= self.quad@.len(),
                p@.len() == self.quad@.len(),
                self.wf(),
                acc == self.acc_spec(p@, i as int),
            decreases self.quad@.len() - i,
        {
            let d = fsub(p[i], self.shift[i]);
            let t = fadd(fmul(self.quad[i], fmul(d, d)), fmul(self.lin[i], p[i]));
            acc = fadd(acc, t);
            i = i + 1;
        }
        acc
    }
}

/// The sign-flipped view of another objective: its value is the inner value
/// multiplied by minus one.  Maximizing an objective is minimizing its
/// negation.
pub struct Negated<'a, O: Objective> {
    pub inner: &'a O,
}

impl<'a, O: Objective> Objective for Negated<'a, O> {
    open spec fn dim_spec(&self) -> nat {
        self.inner.dim_spec()
    }

    open spec fn value_spec(&self, p: Seq<u64>) -> u64 {
        mul_of(NEG_ONE_BITS, self.inner.value_spec(p))
    }

    fn dim(&self) -> (n: usize)
    {
        self.inner.dim()
    }

    fn eval(&self, p: &Vec<u64>) -> (r: u64)
    {
        fmul(NEG_ONE_BITS, self.inner.eval(p))
    }
}

} // verus!

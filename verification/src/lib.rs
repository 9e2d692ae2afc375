//! Derivative-free minimization — and, by sign inversion, maximization — of
//! a real-valued function of several real variables with the Nelder-Mead
//! simplex method, optionally constrained to an axis-aligned box.
//!
//! Every coordinate and value is an IEEE 754 double carried as its 64-bit
//! pattern; the arithmetic itself is done by a software implementation of
//! the format behind a small trusted layer, and everything above that layer
//! — the vector algebra, the box clamp, the simplex invariant, the
//! reflect/expand/contract/shrink decision and the driver loop — is
//! verified against specifications that pin each result down exactly.

use vstd::prelude::*;

pub mod algebra;
pub mod bounds;
pub mod objective;
pub mod params;
pub mod scalar;
pub mod simplex;

use crate::bounds::{Bounds, pairs_spec};
use crate::objective::{Objective, Negated};
use crate::params::Params;
use crate::scalar::{lt_bits, le_bits, mul_of, ZERO_BITS, MAX_BITS, MIN_BITS, NEG_ONE_BITS};
use crate::scalar::{lt, le, fmul};
use crate::simplex::{
    run_spec,
    run_nan,
    pick_spec,
    sort_by_value_spec,
    seeded_points_spec,
    seeded_vertices_spec,
    seeded_start,
    seeded_nan,
    new_simplex,
};

verus! {

/// Why a run was refused or abandoned.  The solver never panics: every
/// violated caller contract and every failure met along the way is returned.
#[derive(Clone, Copy, Debug, PartialEq, Eq, Structural)]
pub enum SolverError {
    /// The starting point is empty, or the point, the bounds and the
    /// objective disagree on the dimension.
    InvalidDimension,
    /// The initial simplex spread is not a positive finite value.
    InvalidRadius,
    /// The given simplex has fewer than two vertices, holds a NaN value, or
    /// is not sorted ascending by value.
    InvalidSimplex,
    /// The objective returned NaN, which has no place in the value order.
    NanValue,
    /// The operating system's entropy source failed.
    Entropy,
}

/// The starting point, the objective and the box agree on a usable
/// dimension.
pub open spec fn dims_ok<O: Objective>(o: &O, center: Seq<u64>, bmin: Seq<u64>, bmax: Seq<u64>) -> bool {
    &&& center.len() >= 1
    &&& center.len() < usize::MAX
    &&& center.len() == o.dim_spec()
    &&& bmin.len() == o.dim_spec()
    &&& bmax.len() == o.dim_spec()
}

/// The initial simplex spread is positive and finite.
pub open spec fn radius_ok(radius: u64) -> bool {
    lt_bits(ZERO_BITS, radius) && le_bits(radius, MAX_BITS)
}

/// The run of `max_iter` steps from the starting figure seeded by the given
/// table of entropy words meets no NaN value, and returns exactly the given
/// point and value: the better of the final best vertex and the centroid of
/// the final best vertices.
pub open spec fn solves_with<O: Objective>(
    o: &O,
    center: Seq<u64>,
    radius: u64,
    raws: Seq<u64>,
    params: Params,
    b: Seq<(u64, u64)>,
    max_iter: nat,
    p: Seq<u64>,
    v: u64,
) -> bool {
    let s0 = sort_by_value_spec(seeded_vertices_spec(o, seeded_points_spec(center, radius, raws)));
    &&& !run_nan(o, s0, params, b, max_iter)
    &&& p == pick_spec(o, run_spec(o, s0, params, b, max_iter)).0
    &&& v == pick_spec(o, run_spec(o, s0, params, b, max_iter)).1
}

/// The run seeded by the given table of entropy words meets a NaN value:
/// at one of the starting candidates, or during one of the steps.
pub open spec fn aborted_with<O: Objective>(
    o: &O,
    center: Seq<u64>,
    radius: u64,
    raws: Seq<u64>,
    params: Params,
    b: Seq<(u64, u64)>,
    max_iter: nat,
) -> bool {
    ||| seeded_nan(o, center, radius, raws)
    ||| run_nan(
        o,
        sort_by_value_spec(seeded_vertices_spec(o, seeded_points_spec(center, radius, raws))),
        params,
        b,
        max_iter,
    )
}

/// What a successful run returns: `solves_with` for some table of entropy
/// words.
pub open spec fn solves<O: Objective>(
    o: &O,
    center: Seq<u64>,
    radius: u64,
    params: Params,
    b: Seq<(u64, u64)>,
    max_iter: nat,
    p: Seq<u64>,
    v: u64,
) -> bool {
    exists|raws: Seq<u64>| solves_with(o, center, radius, raws, params, b, max_iter, p, v)
}

/// Minimizes the objective, starting from a randomized simplex of the given
/// spread centered on `initial_point`, inside the box `bounds`, running
/// exactly `max_iter` steps.  A dimension disagreement or an unusable
/// spread is refused up front; otherwise the run can only be abandoned by a
/// NaN value of the objective or a failure of the entropy source, and a
/// success is exactly `solves`: the pick of the run from some seeded
/// starting figure.
pub fn minimize<O: Objective>(
    f: &O,
    initial_point: Vec<u64>,
    initial_simplex_size: u64,
    params: Params,
    bounds: Bounds,
    max_iter: u32,
) -> (r: Result<(Vec<u64>, u64), SolverError>)
    ensures
        ({
            let b = pairs_spec(bounds.min@, bounds.max@);
            if !dims_ok(f, initial_point@, bounds.min@, bounds.max@) {
                r == Err::<(Vec<u64>, u64), SolverError>(SolverError::InvalidDimension)
            } else if !radius_ok(initial_simplex_size) {
                r == Err::<(Vec<u64>, u64), SolverError>(SolverError::InvalidRadius)
            } else {
                match r {
                    Ok(pv) => solves(
                        f,
                        initial_point@,
                        initial_simplex_size,
                        params,
                        b,
                        max_iter as nat,
                        pv.0@,
                        pv.1,
                    ),
                    Err(e) => {
                        &&& e == SolverError::NanValue || e == SolverError::Entropy
                        &&& e == SolverError::NanValue ==> exists|raws: Seq<u64>|
                            aborted_with(
                                f,
                                initial_point@,
                                initial_simplex_size,
                                raws,
                                params,
                                b,
                                max_iter as nat,
                            )
                    },
                }
            }
        }),
{
    let d = f.dim();
    if initial_point.len() == 0 || initial_point.len() == usize::MAX || initial_point.len() != d
        || bounds.min.len() != d || bounds.max.len() != d {
        return Err(SolverError::InvalidDimension);
    }
    if !(lt(ZERO_BITS, initial_simplex_size) && le(initial_simplex_size, MAX_BITS)) {
        return Err(SolverError::InvalidRadius);
    }
    let ghost center = initial_point@;
    let initial_simplex = match new_simplex(f, initial_point, initial_simplex_size) {
        Ok(s) => s,
        Err(e) => {
            proof {
                if e == SolverError::NanValue {
                    let raws = choose|raws: Seq<u64>|
                        seeded_nan(f, center, initial_simplex_size, raws);
                    assert(aborted_with(
                        f,
                        center,
                        initial_simplex_size,
                        raws,
                        params,
                        pairs_spec(bounds.min@, bounds.max@),
                        max_iter as nat,
                    ));
                }
            }
            return Err(e);
        },
    };
    let ghost s0 = initial_simplex@;
    let ghost b = pairs_spec(bounds.min@, bounds.max@);
    match crate::simplex::minimize(f, initial_simplex, params, bounds, max_iter) {
        Ok(pv) => {
            proof {
                let raws = choose|raws: Seq<u64>|
                    seeded_start(f, center, initial_simplex_size, raws, s0);
                assert(seeded_start(f, center, initial_simplex_size, raws, s0));
                assert(solves_with(
                    f,
                    center,
                    initial_simplex_size,
                    raws,
                    params,
                    b,
                    max_iter as nat,
                    pv.0@,
                    pv.1,
                ));
                assert(solves(
                    f,
                    center,
                    initial_simplex_size,
                    params,
                    b,
                    max_iter as nat,
                    pv.0@,
                    pv.1,
                ));
            }
            Ok(pv)
        },
        Err(e) => {
            proof {
                let raws = choose|raws: Seq<u64>|
                    seeded_start(f, center, initial_simplex_size, raws, s0);
                assert(seeded_start(f, center, initial_simplex_size, raws, s0));
                assert(aborted_with(
                    f,
                    center,
                    initial_simplex_size,
                    raws,
                    params,
                    b,
                    max_iter as nat,
                ));
            }
            Err(e)
        },
    }
}

/// Maximizes the objective: minimizes its negation from the same starting
/// figure, then flips the sign of the returned value back.  The returned
/// point is the negated run's; only the value changes sign.
pub fn maximize<O: Objective>(
    f: &O,
    initial_point: Vec<u64>,
    initial_simplex_size: u64,
    params: Params,
    bounds: Bounds,
    max_iter: u32,
) -> (r: Result<(Vec<u64>, u64), SolverError>)
    ensures
        ({
            let b = pairs_spec(bounds.min@, bounds.max@);
            if !dims_ok(f, initial_point@, bounds.min@, bounds.max@) {
                r == Err::<(Vec<u64>, u64), SolverError>(SolverError::InvalidDimension)
            } else if !radius_ok(initial_simplex_size) {
                r == Err::<(Vec<u64>, u64), SolverError>(SolverError::InvalidRadius)
            } else {
                match r {
                    Ok(pv) => exists|v0: u64|
                        #![auto]
                        solves(
                            &(Negated { inner: f }),
                            initial_point@,
                            initial_simplex_size,
                            params,
                            b,
                            max_iter as nat,
                            pv.0@,
                            v0,
                        ) && pv.1 == mul_of(NEG_ONE_BITS, v0),
                    Err(e) => {
                        &&& e == SolverError::NanValue || e == SolverError::Entropy
                        &&& e == SolverError::NanValue ==> exists|raws: Seq<u64>|
                            aborted_with(
                                &(Negated { inner: f }),
                                initial_point@,
                                initial_simplex_size,
                                raws,
                                params,
                                b,
                                max_iter as nat,
                            )
                    },
                }
            }
        }),
{
    let g = Negated { inner: f };
    match minimize(&g, initial_point, initial_simplex_size, params, bounds, max_iter) {
        Ok((x, gx)) => Ok((x, fmul(NEG_ONE_BITS, gx))),
        Err(e) => Err(e),
    }
}

/// The box pairs of the unconstrained search: the full representable range
/// in each dimension.
pub open spec fn unbounded_pairs(n: nat) -> Seq<(u64, u64)> {
    Seq::new(n, |i: int| (MIN_BITS, MAX_BITS))
}

/// Minimizes the objective without constraints: the box spanning the whole
/// representable range in every dimension stands in for no box at all.
pub fn minimize_unbounded<O: Objective>(
    f: &O,
    initial_point: Vec<u64>,
    initial_simplex_size: u64,
    params: Params,
    max_iter: u32,
) -> (r: Result<(Vec<u64>, u64), SolverError>)
    ensures
        ({
            if !(initial_point@.len() >= 1 && initial_point@.len() < usize::MAX
                && initial_point@.len() == f.dim_spec()) {
                r == Err::<(Vec<u64>, u64), SolverError>(SolverError::InvalidDimension)
            } else if !radius_ok(initial_simplex_size) {
                r == Err::<(Vec<u64>, u64), SolverError>(SolverError::InvalidRadius)
            } else {
                match r {
                    Ok(pv) => solves(
                        f,
                        initial_point@,
                        initial_simplex_size,
                        params,
                        unbounded_pairs(initial_point@.len()),
                        max_iter as nat,
                        pv.0@,
                        pv.1,
                    ),
                    Err(e) => {
                        &&& e == SolverError::NanValue || e == SolverError::Entropy
                        &&& e == SolverError::NanValue ==> exists|raws: Seq<u64>|
                            aborted_with(
                                f,
                                initial_point@,
                                initial_simplex_size,
                                raws,
                                params,
                                unbounded_pairs(initial_point@.len()),
                                max_iter as nat,
                            )
                    },
                }
            }
        }),
{
    let bounds = Bounds::none(initial_point.len());
    proof {
        assert(pairs_spec(bounds.min@, bounds.max@) =~= unbounded_pairs(initial_point@.len()));
    }
    minimize(f, initial_point, initial_simplex_size, params, bounds, max_iter)
}

/// Maximizes the objective without constraints, as `minimize_unbounded`
/// does for minimization.
pub fn maximize_unbounded<O: Objective>(
    f: &O,
    initial_point: Vec<u64>,
    initial_simplex_size: u64,
    params: Params,
    max_iter: u32,
) -> (r: Result<(Vec<u64>, u64), SolverError>)
    ensures
        ({
            if !(initial_point@.len() >= 1 && initial_point@.len() < usize::MAX
                && initial_point@.len() == f.dim_spec()) {
                r == Err::<(Vec<u64>, u64), SolverError>(SolverError::InvalidDimension)
            } else if !radius_ok(initial_simplex_size) {
                r == Err::<(Vec<u64>, u64), SolverError>(SolverError::InvalidRadius)
            } else {
                match r {
                    Ok(pv) => exists|v0: u64|
                        #![auto]
                        solves(
                            &(Negated { inner: f }),
                            initial_point@,
                            initial_simplex_size,
                            params,
                            unbounded_pairs(initial_point@.len()),
                            max_iter as nat,
                            pv.0@,
                            v0,
                        ) && pv.1 == mul_of(NEG_ONE_BITS, v0),
                    Err(e) => {
                        &&& e == SolverError::NanValue || e == SolverError::Entropy
                        &&& e == SolverError::NanValue ==> exists|raws: Seq<u64>|
                            aborted_with(
                                &(Negated { inner: f }),
                                initial_point@,
                                initial_simplex_size,
                                raws,
                                params,
                                unbounded_pairs(initial_point@.len()),
                                max_iter as nat,
                            )
                    },
                }
            }
        }),
{
    let bounds = Bounds::none(initial_point.len());
    proof {
        assert(pairs_spec(bounds.min@, bounds.max@) =~= unbounded_pairs(initial_point@.len()));
    }
    maximize(f, initial_point, initial_simplex_size, params, bounds, max_iter)
}

} // verus!

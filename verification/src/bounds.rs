//! An axis-aligned box constraining the feasible region: one closed interval
//! per dimension, and the clamp that clips a point into the box.

use vstd::prelude::*;

use crate::scalar::{is_nan_of, lt_bits, le_bits, MIN_BITS, MAX_BITS};
use crate::scalar::lt;

verus! {

/// An axis-aligned box: the least and greatest allowed coordinate in each
/// dimension.  The two points are expected to have the same length and to
/// be ordered dimension by dimension; a `Bounds` violating that expectation
/// is a contract violation by the caller.
pub struct Bounds {
    pub min: Vec<u64>,
    pub max: Vec<u64>,
}

/// The coordinate `x` clipped into the interval from `lo` to `hi`: pulled up
/// to `lo` when it compares below it, down to `hi` when it compares above
/// it, and kept as it is otherwise (in particular, a NaN coordinate is kept).
pub open spec fn clip_spec(x: u64, lo: u64, hi: u64) -> u64 {
    if lt_bits(x, lo) {
        lo
    } else if lt_bits(hi, x) {
        hi
    } else {
        x
    }
}

/// The box as one interval per dimension.
pub open spec fn pairs_spec(min: Seq<u64>, max: Seq<u64>) -> Seq<(u64, u64)> {
    Seq::new(min.len(), |i: int| (min[i], max[i]))
}

/// The point `p` clipped dimension by dimension into the box `b`.
pub open spec fn clamp_spec(p: Seq<u64>, b: Seq<(u64, u64)>) -> Seq<u64> {
    Seq::new(p.len(), |i: int| clip_spec(p[i], b[i].0, b[i].1))
}

impl Bounds {
    /// The box that spans the whole representable range in each of `n`
    /// dimensions: the sentinel for an unconstrained search.
    pub fn none(n: usize) -> (r: Bounds)
        ensures
            r.min@.len() == n,
            r.max@.len() == n,
            forall|i: int| 0 <= i < n ==> r.min@[i] == MIN_BITS,
            forall|i: int| 0 <= i < n ==> r.max@[i] == MAX_BITS,
    {
        let mut min: Vec<u64> = Vec::new();
        let mut max: Vec<u64> = Vec::new();
        let mut i: usize = 0;
        while i < n
            invariant
                i <= n,
                min@.len() == i,
                max@.len() == i,
                forall|j: int| 0 <= j < i ==> min@[j] == MIN_BITS,
                forall|j: int| 0 <= j < i ==> max@[j] == MAX_BITS,
            decreases n - i,
        {
            min.push(MIN_BITS);
            max.push(MAX_BITS);
            i = i + 1;
        }
        Bounds { min, max }
    }

    /// The box as one interval per dimension.
    pub fn as_vec(self: &Bounds) -> (r: Vec<(u64, u64)>)
        requires
            self.min@.len() == self.max@.len(),
        ensures
            r@ == pairs_spec(self.min@, self.max@),
    {
        let mut r: Vec<(u64, u64)> = Vec::new();
        let mut i: usize = 0;
        while i < self.min.len()
            invariant
                i <= self.min@.len(),
                self.min@.len() == self.max@.len(),
                r@.len() == i,
                forall|j: int| 0 <= j < i ==> r@[j] == (self.min@[j], self.max@[j]),
            decreases self.min@.len() - i,
        {
            r.push((self.min[i], self.max[i]));
            i = i + 1;
        }
        proof {
            assert(r@ =~= pairs_spec(self.min@, self.max@));
        }
        r
    }
}

/// Clips the point into the box, dimension by dimension.
pub fn clamp(p: &Vec<u64>, bounds_vec: &Vec<(u64, u64)>) -> (r: Vec<u64>)
    requires
        p@.len() == bounds_vec@.len(),
    ensures
        r@ == clamp_spec(p@, bounds_vec@),
{
    let mut r: Vec<u64> = Vec::new();
    let mut i: usize = 0;
    while i < p.len()
        invariant
            i <= p@.len(),
            p@.len() == bounds_vec@.len(),
            r@.len() == i,
            forall|j: int| 0 <= j < i ==> r@[j] == clip_spec(p@[j], bounds_vec@[j].0, bounds_vec@[j].1),
        decreases p@.len() - i,
    {
        let (lo, hi) = bounds_vec[i];
        let x = p[i];
        let c = if lt(x, lo) {
            lo
        } else if lt(hi, x) {
            hi
        } else {
            x
        };
        r.push(c);
        i = i + 1;
    }
    proof {
        assert(r@ =~= clamp_spec(p@, bounds_vec@));
    }
    r
}

/// Law: a clipped coordinate lies in the interval it was clipped into,
/// whenever the interval's two ends are not NaN and are ordered, and the
/// coordinate itself is not NaN (a NaN coordinate is kept unchanged and lies
/// in no interval).
pub proof fn lemma_clip_within(x: u64, lo: u64, hi: u64)
    requires
        le_bits(lo, hi),
        !is_nan_of(x),
    ensures
        le_bits(lo, clip_spec(x, lo, hi)),
        le_bits(clip_spec(x, lo, hi), hi),
{
}

/// Law: a clamped point satisfies the box dimension by dimension, whenever
/// the box's ends are ordered and neither they nor the point hold a NaN.
pub proof fn lemma_clamp_within(p: Seq<u64>, b: Seq<(u64, u64)>)
    requires
        p.len() == b.len(),
        forall|i: int| 0 <= i < b.len() ==> le_bits((#[trigger] b[i]).0, b[i].1),
        forall|i: int| 0 <= i < p.len() ==> !is_nan_of(#[trigger] p[i]),
    ensures
        forall|i: int|
            0 <= i < p.len() ==> le_bits((#[trigger] b[i]).0, clamp_spec(p, b)[i])
                && le_bits(clamp_spec(p, b)[i], b[i].1),
{
    assert forall|i: int| 0 <= i < p.len() implies le_bits((#[trigger] b[i]).0, clamp_spec(p, b)[i])
        && le_bits(clamp_spec(p, b)[i], b[i].1) by {
        lemma_clip_within(p[i], b[i].0, b[i].1);
    }
}

/// Law: clamping against the unbounded box is the identity on every point
/// whose coordinates are NaN or lie, in the comparison order, between the
/// least and the greatest finite value; only a coordinate beyond those ends
/// (an infinity) is pulled back to them.
pub proof fn lemma_clamp_unbounded_identity(p: Seq<u64>, b: Seq<(u64, u64)>)
    requires
        b.len() == p.len(),
        forall|i: int| 0 <= i < b.len() ==> #[trigger] b[i] == (MIN_BITS, MAX_BITS),
        forall|i: int|
            0 <= i < p.len() ==> is_nan_of(#[trigger] p[i])
                || (!lt_bits(p[i], MIN_BITS) && !lt_bits(MAX_BITS, p[i])),
    ensures
        clamp_spec(p, b) == p,
{
    assert(clamp_spec(p, b) =~= p);
}

} // verus!

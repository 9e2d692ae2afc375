//! Elementwise vector algebra over points: sums, differences, scaling and
//! the mean of a family of points.  A point is a sequence of scalar bit
//! patterns; every operation here is total on equal-length inputs and is
//! pinned down elementwise by the scalar layer's names.

use vstd::prelude::*;

use crate::scalar::{add_of, sub_of, mul_of, div_of, of_u64, ONE_BITS};
use crate::scalar::{fadd, fsub, fmul, fdiv, ffrom_u64};

verus! {

/// The elementwise sum of two equal-length points.
pub open spec fn sum_spec(p: Seq<u64>, q: Seq<u64>) -> Seq<u64> {
    Seq::new(p.len(), |i: int| add_of(p[i], q[i]))
}

/// The elementwise difference of two equal-length points.
pub open spec fn diff_spec(p: Seq<u64>, q: Seq<u64>) -> Seq<u64> {
    Seq::new(p.len(), |i: int| sub_of(p[i], q[i]))
}

/// The point `p` with every coordinate multiplied by the scalar `k`.
pub open spec fn scale_spec(k: u64, p: Seq<u64>) -> Seq<u64> {
    Seq::new(p.len(), |i: int| mul_of(k, p[i]))
}

/// The running elementwise sum of a non-empty family of points, folded from
/// the left: the first point, then each later one added in turn.
pub open spec fn fold_sum_spec(ps: Seq<Seq<u64>>) -> Seq<u64>
    recommends
        ps.len() >= 1,
    decreases ps.len(),
{
    if ps.len() <= 1 {
        ps[0]
    } else {
        sum_spec(fold_sum_spec(ps.drop_last()), ps.last())
    }
}

/// The elementwise mean of a non-empty family of points: the running sum
/// scaled by the reciprocal of the count.
pub open spec fn avg_spec(ps: Seq<Seq<u64>>) -> Seq<u64>
    recommends
        ps.len() >= 1,
{
    scale_spec(div_of(ONE_BITS, of_u64(ps.len() as u64)), fold_sum_spec(ps))
}

/// All points of the family have length `n`.
pub open spec fn uniform_len(ps: Seq<Seq<u64>>, n: nat) -> bool {
    forall|i: int| 0 <= i < ps.len() ==> (#[trigger] ps[i]).len() == n
}

/// The running sum of a family of points of length `m` has length `m`.
pub proof fn lemma_fold_sum_len(ps: Seq<Seq<u64>>, m: nat)
    requires
        ps.len() >= 1,
        uniform_len(ps, m),
    ensures
        fold_sum_spec(ps).len() == m,
    decreases ps.len(),
{
    if ps.len() > 1 {
        assert(forall|i: int| 0 <= i < ps.len() - 1 ==> #[trigger] ps.drop_last()[i] == ps[i]);
        lemma_fold_sum_len(ps.drop_last(), m);
    }
}

/// The mean of a family of points of length `m` has length `m`.
pub proof fn lemma_avg_len(ps: Seq<Seq<u64>>, m: nat)
    requires
        ps.len() >= 1,
        uniform_len(ps, m),
    ensures
        avg_spec(ps).len() == m,
{
    lemma_fold_sum_len(ps, m);
}

/// Adds two points of equal length, coordinate by coordinate.
pub fn sum(p1: &Vec<u64>, p2: &Vec<u64>) -> (r: Vec<u64>)
    requires
        p1@.len() == p2@.len(),
    ensures
        r@ == sum_spec(p1@, p2@),
{
    let mut r: Vec<u64> = Vec::new();
    let mut i: usize = 0;
    while i < p1.len()
        invariant
            i <= p1@.len(),
            p1@.len() == p2@.len(),
            r@.len() == i,
            forall|j: int| 0 <= j < i ==> r@[j] == add_of(p1@[j], p2@[j]),
        decreases p1@.len() - i,
    {
        r.push(fadd(p1[i], p2[i]));
        i = i + 1;
    }
    proof {
        assert(r@ =~= sum_spec(p1@, p2@));
    }
    r
}

/// Subtracts the second point from the first, coordinate by coordinate.
pub fn diff(p1: &Vec<u64>, p2: &Vec<u64>) -> (r: Vec<u64>)
    requires
        p1@.len() == p2@.len(),
    ensures
        r@ == diff_spec(p1@, p2@),
{
    let mut r: Vec<u64> = Vec::new();
    let mut i: usize = 0;
    while i < p1.len()
        invariant
            i <= p1@.len(),
            p1@.len() == p2@.len(),
            r@.len() == i,
            forall|j: int| 0 <= j < i ==> r@[j] == sub_of(p1@[j], p2@[j]),
        decreases p1@.len() - i,
    {
        r.push(fsub(p1[i], p2[i]));
        i = i + 1;
    }
    proof {
        assert(r@ =~= diff_spec(p1@, p2@));
    }
    r
}

/// Multiplies every coordinate of the point by the scalar `k`.
pub fn mult(k: u64, p: &Vec<u64>) -> (r: Vec<u64>)
    ensures
        r@ == scale_spec(k, p@),
{
    let mut r: Vec<u64> = Vec::new();
    let mut i: usize = 0;
    while i < p.len()
        invariant
            i <= p@.len(),
            r@.len() == i,
            forall|j: int| 0 <= j < i ==> r@[j] == mul_of(k, p@[j]),
        decreases p@.len() - i,
    {
        r.push(fmul(k, p[i]));
        i = i + 1;
    }
    proof {
        assert(r@ =~= scale_spec(k, p@));
    }
    r
}

/// The mean of a non-empty family of equal-length points: folds the
/// elementwise sum from the left, then scales by the reciprocal of the
/// count.
pub fn avg(ps: &Vec<Vec<u64>>) -> (r: Vec<u64>)
    requires
        ps@.len() >= 1,
        uniform_len(ps.deep_view(), ps.deep_view()[0].len()),
    ensures
        r@ == avg_spec(ps.deep_view()),
{
    let ghost dv = ps.deep_view();
    let mut acc: Vec<u64> = Vec::new();
    let head = &ps[0];
    let mut i: usize = 0;
    while i < head.len()
        invariant
            i <= head@.len(),
            acc@.len() == i,
            head == &ps@[0],
            forall|j: int| 0 <= j < i ==> acc@[j] == head@[j],
        decreases head@.len() - i,
    {
        acc.push(head[i]);
        i = i + 1;
    }
    proof {
        assert(dv[0] == ps@[0]@);
        assert(acc@ =~= dv[0]);
        assert(dv.take(1).drop_last() =~= dv.take(0));
        assert(acc@ == fold_sum_spec(dv.take(1)));
    }
    let mut k: usize = 1;
    while k < ps.len()
        invariant
            1 <= k <= ps@.len(),
            dv == ps.deep_view(),
            uniform_len(dv, dv[0].len()),
            acc@ == fold_sum_spec(dv.take(k as int)),
            acc@.len() == dv[0].len(),
        decreases ps@.len() - k,
    {
        proof {
            assert(dv[k as int] == ps@[k as int]@);
            assert(dv.take(k + 1).drop_last() =~= dv.take(k as int));
            assert(dv.take(k + 1).last() == dv[k as int]);
        }
        acc = sum(&acc, &ps[k]);
        k = k + 1;
    }
    proof {
        assert(dv.take(ps@.len() as int) =~= dv);
    }
    let count = ffrom_u64(ps.len() as u64);
    let scale = fdiv(crate::scalar::ONE_BITS, count);
    mult(scale, &acc)
}

} // verus!

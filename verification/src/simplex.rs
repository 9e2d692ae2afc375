//! The simplex engine: the working figure of the search, its construction
//! around a starting point, the reflect/expand/contract/shrink step, and
//! the fixed-iteration driver loop.

use vstd::prelude::*;

use rand::RngCore;

use crate::algebra::{sum_spec, diff_spec, scale_spec, avg_spec};
use crate::algebra::{sum, diff, mult, avg};
use crate::bounds::{Bounds, clamp_spec, clamp};
use crate::SolverError;
use crate::objective::Objective;
use crate::params::Params;
use crate::scalar::{is_nan_of, lt_bits, le_bits, add_of, sub_of, mul_of, of_u64};
use crate::scalar::{lt, le, is_nan, fadd, fsub, fmul, ffrom_u64};
use crate::scalar::{NEG_ONE_BITS, UNIT_STEP_BITS};

verus! {

/// One corner of the working figure: a point and the objective's value at
/// it.  Never mutated; replaced whole.
pub struct Vertex {
    pub point: Vec<u64>,
    pub value: u64,
}

/// The mathematical account of a vertex.
pub ghost struct VertexModel {
    pub point: Seq<u64>,
    pub value: u64,
}

impl View for Vertex {
    type V = VertexModel;

    open spec fn view(&self) -> VertexModel {
        VertexModel { point: self.point@, value: self.value }
    }
}

/// The vertex list as a sequence of models.
pub open spec fn models_of(vs: Seq<Vertex>) -> Seq<VertexModel> {
    vs.map_values(|v: Vertex| v@)
}

/// The working figure: a list of vertices kept sorted ascending by value,
/// so the first vertex is the best and the last is the worst.
pub struct Simplex {
    pub vertices: Vec<Vertex>,
}

impl View for Simplex {
    type V = Seq<VertexModel>;

    open spec fn view(&self) -> Seq<VertexModel> {
        models_of(self.vertices@)
    }
}

/// Adjacent vertices are ordered ascending by value.
pub open spec fn sorted_by_value(s: Seq<VertexModel>) -> bool {
    forall|i: int| 0 <= i < s.len() - 1 ==> le_bits((#[trigger] s[i]).value, s[i + 1].value)
}

/// No vertex carries a NaN value.
pub open spec fn values_not_nan(s: Seq<VertexModel>) -> bool {
    forall|i: int| 0 <= i < s.len() ==> !is_nan_of((#[trigger] s[i]).value)
}

/// Every point of the figure has dimension `n`.
pub open spec fn points_dim(s: Seq<VertexModel>, n: nat) -> bool {
    forall|i: int| 0 <= i < s.len() ==> (#[trigger] s[i]).point.len() == n
}

/// A well-formed simplex over dimension `n`: at least two vertices, every
/// point of dimension `n`, no NaN value, sorted ascending by value.
pub open spec fn wf_simplex(s: Seq<VertexModel>, n: nat) -> bool {
    s.len() >= 2 && points_dim(s, n) && values_not_nan(s) && sorted_by_value(s)
}

/// Where a new value lands in a sorted vertex list: the first index whose
/// value compares strictly above it.  A vertex thus joins after any vertex
/// of equal value, exactly where a stable sort of the appended list would
/// put it.
pub open spec fn insert_pos_spec(s: Seq<VertexModel>, v: u64) -> int
    decreases s.len(),
{
    if s.len() == 0 {
        0
    } else if lt_bits(v, s[0].value) {
        0
    } else {
        1 + insert_pos_spec(s.drop_first(), v)
    }
}

/// The sorted list with one more vertex, at its stable position.
pub open spec fn insert_sorted_spec(s: Seq<VertexModel>, vm: VertexModel) -> Seq<VertexModel> {
    s.insert(insert_pos_spec(s, vm.value), vm)
}

/// A list sorted ascending by value, by inserting each vertex in turn at
/// its stable position: the result a stable sort of the list would give.
pub open spec fn sort_by_value_spec(s: Seq<VertexModel>) -> Seq<VertexModel>
    decreases s.len(),
{
    if s.len() == 0 {
        s
    } else {
        insert_sorted_spec(sort_by_value_spec(s.drop_last()), s.last())
    }
}

/// The insertion position is within the list, every vertex before it
/// compares at or below the new value, and the vertex at it (if any)
/// compares strictly above.
pub proof fn lemma_insert_pos(s: Seq<VertexModel>, v: u64)
    ensures
        0 <= insert_pos_spec(s, v) <= s.len(),
        forall|j: int| 0 <= j < insert_pos_spec(s, v) ==> !lt_bits(v, (#[trigger] s[j]).value),
        insert_pos_spec(s, v) < s.len() ==> lt_bits(v, s[insert_pos_spec(s, v)].value),
    decreases s.len(),
{
    if s.len() > 0 && !lt_bits(v, s[0].value) {
        lemma_insert_pos(s.drop_first(), v);
        let p = insert_pos_spec(s, v);
        assert forall|j: int| 0 <= j < p implies !lt_bits(v, (#[trigger] s[j]).value) by {
            if j > 0 {
                assert(s.drop_first()[j - 1] == s[j]);
            }
        }
        if p < s.len() {
            assert(s.drop_first()[p - 1] == s[p]);
        }
    }
}

/// Inserting at the stable position keeps the list sorted and free of NaN
/// values, and grows it by one.
pub proof fn lemma_insert_sorted(s: Seq<VertexModel>, vm: VertexModel)
    requires
        sorted_by_value(s),
        values_not_nan(s),
        !is_nan_of(vm.value),
    ensures
        sorted_by_value(insert_sorted_spec(s, vm)),
        values_not_nan(insert_sorted_spec(s, vm)),
        insert_sorted_spec(s, vm).len() == s.len() + 1,
{
    lemma_insert_pos(s, vm.value);
    let p = insert_pos_spec(s, vm.value);
    let t = insert_sorted_spec(s, vm);
    s.insert_ensures(p, vm);
    assert forall|i: int| 0 <= i < t.len() - 1 implies le_bits(
        (#[trigger] t[i]).value,
        t[i + 1].value,
    ) by {
        if i + 1 < p {
            assert(t[i] == s[i]);
            assert(t[i + 1] == s[i + 1]);
        } else if i + 1 == p {
            assert(t[i] == s[i]);
            assert(t[i + 1] == vm);
            assert(!lt_bits(vm.value, s[i].value));
        } else if i == p {
            assert(t[i] == vm);
            assert(t[i + 1] == s[i]);
            assert(lt_bits(vm.value, s[i].value));
        } else {
            assert(t[i] == s[i - 1]);
            assert(t[i + 1] == s[i]);
        }
    }
    assert forall|i: int| 0 <= i < t.len() implies !is_nan_of((#[trigger] t[i]).value) by {
        if i < p {
            assert(t[i] == s[i]);
        } else if i == p {
            assert(t[i] == vm);
        } else {
            assert(t[i] == s[i - 1]);
        }
    }
}

/// Sorting keeps the vertex count, the dimensions of the points and the
/// absence of NaN values, and yields a list sorted ascending by value.
#[verifier::rlimit(50)]
pub proof fn lemma_sort_by_value(s: Seq<VertexModel>, n: nat)
    requires
        values_not_nan(s),
        points_dim(s, n),
    ensures
        sort_by_value_spec(s).len() == s.len(),
        sorted_by_value(sort_by_value_spec(s)),
        values_not_nan(sort_by_value_spec(s)),
        points_dim(sort_by_value_spec(s), n),
    decreases s.len(),
{
    if s.len() > 0 {
        let front = s.drop_last();
        assert(values_not_nan(front));
        assert(points_dim(front, n));
        lemma_sort_by_value(front, n);
        let sorted_front = sort_by_value_spec(front);
        lemma_insert_pos(sorted_front, s.last().value);
        lemma_insert_sorted(sorted_front, s.last());
        let p = insert_pos_spec(sorted_front, s.last().value);
        sorted_front.insert_ensures(p, s.last());
        let t = sort_by_value_spec(s);
        assert forall|i: int| 0 <= i < t.len() implies (#[trigger] t[i]).point.len() == n by {
            if i < p {
                assert(t[i] == sorted_front[i]);
            } else if i == p {
                assert(t[i] == s.last());
            } else {
                assert(t[i] == sorted_front[i - 1]);
            }
        }
    }
}

/// Copies a point.
pub fn clone_point(p: &Vec<u64>) -> (r: Vec<u64>)
    ensures
        r@ == p@,
{
    let mut r: Vec<u64> = Vec::new();
    let mut i: usize = 0;
    while i < p.len()
        invariant
            i <= p@.len(),
            r@.len() == i,
            forall|j: int| 0 <= j < i ==> r@[j] == p@[j],
        decreases p@.len() - i,
    {
        r.push(p[i]);
        i = i + 1;
    }
    proof {
        assert(r@ =~= p@);
    }
    r
}

/// Puts a vertex into a sorted vertex list at its stable position.
fn insert_vertex(arr: &mut Vec<Vertex>, v: Vertex)
    requires
        sorted_by_value(models_of(old(arr)@)),
        values_not_nan(models_of(old(arr)@)),
        !is_nan_of(v@.value),
    ensures
        models_of(final(arr)@) == insert_sorted_spec(models_of(old(arr)@), v@),
        sorted_by_value(models_of(final(arr)@)),
        values_not_nan(models_of(final(arr)@)),
{
    let ghost s0 = models_of(arr@);
    proof {
        lemma_insert_pos(s0, v@.value);
        lemma_insert_sorted(s0, v@);
    }
    let mut i: usize = 0;
    while i < arr.len() && !lt(v.value, arr[i].value)
        invariant
            i <= arr@.len(),
            arr@ == old(arr)@,
            s0 == models_of(arr@),
            s0.len() == arr@.len(),
            forall|j: int| 0 <= j < i ==> !lt_bits(v@.value, (#[trigger] s0[j]).value),
        decreases arr@.len() - i,
    {
        proof {
            assert(0 <= i < arr@.len());
            assert(s0[i as int] == arr@[i as int]@);
        }
        i = i + 1;
    }
    proof {
        assert(i < arr@.len() ==> s0[i as int] == arr@[i as int]@);
        assert(i as int == insert_pos_spec(s0, v@.value));
    }
    arr.insert(i, v);
    proof {
        assert(models_of(arr@) =~= insert_sorted_spec(s0, v@));
    }
}

/// The points of all vertices but the worst.
pub open spec fn best_points_spec(s: Seq<VertexModel>) -> Seq<Seq<u64>> {
    s.drop_last().map_values(|vm: VertexModel| vm.point)
}

/// The centroid of all vertices but the worst.
pub open spec fn centroid_spec(s: Seq<VertexModel>) -> Seq<u64> {
    avg_spec(best_points_spec(s))
}

/// The reflected candidate: the worst vertex mirrored through the centroid,
/// scaled by the reflection coefficient, clipped into the box.
pub open spec fn reflect_spec(s: Seq<VertexModel>, alpha: u64, b: Seq<(u64, u64)>) -> Seq<u64> {
    let c = centroid_spec(s);
    clamp_spec(sum_spec(c, scale_spec(alpha, diff_spec(c, s.last().point))), b)
}

/// The expanded candidate: the reflected point pushed further out from the
/// centroid by the expansion coefficient, clipped into the box.
pub open spec fn expand_spec(s: Seq<VertexModel>, alpha: u64, gamma: u64, b: Seq<(u64, u64)>) -> Seq<
    u64,
> {
    let c = centroid_spec(s);
    let xr = reflect_spec(s, alpha, b);
    clamp_spec(sum_spec(c, scale_spec(gamma, diff_spec(xr, c))), b)
}

/// The contracted candidate: the worst vertex pulled toward the centroid by
/// the contraction coefficient, clipped into the box.
pub open spec fn contract_spec(s: Seq<VertexModel>, rho: u64, b: Seq<(u64, u64)>) -> Seq<u64> {
    let c = centroid_spec(s);
    clamp_spec(sum_spec(c, scale_spec(rho, diff_spec(s.last().point, c))), b)
}

/// A vertex's point pulled toward the best point by the shrink coefficient.
/// Shrink candidates are not clipped into the box; the box constrains only
/// the reflected, expanded and contracted candidates.
pub open spec fn shrink_point_spec(best: Seq<u64>, delta: u64, p: Seq<u64>) -> Seq<u64> {
    sum_spec(best, scale_spec(delta, diff_spec(p, best)))
}

/// The vertex list a shrink rebuilds, in the order it is assembled: every
/// vertex but the best pulled toward the best and re-evaluated, then the
/// best kept unchanged.
pub open spec fn shrink_list_spec<O: Objective>(o: &O, s: Seq<VertexModel>, delta: u64) -> Seq<
    VertexModel,
> {
    Seq::new(
        s.len(),
        |i: int|
            if i < s.len() - 1 {
                let p = shrink_point_spec(s[0].point, delta, s[i + 1].point);
                VertexModel { point: p, value: o.value_spec(p) }
            } else {
                s[0]
            },
    )
}

/// The simplex after accepting a vertex: inserted at its stable position,
/// then the worst vertex dropped, keeping the size.
pub open spec fn add_vertex_spec(s: Seq<VertexModel>, vm: VertexModel) -> Seq<VertexModel> {
    insert_sorted_spec(s, vm).drop_last()
}

/// The reflected value is accepted when it beats the second-worst vertex
/// without beating the best one.
pub open spec fn accepts_reflected(s: Seq<VertexModel>, vr: u64) -> bool {
    le_bits(s[0].value, vr) && lt_bits(vr, s[s.len() - 2].value)
}

/// The expansion branch is taken when the expanded value beats the worst
/// vertex.
pub open spec fn accepts_expanded(s: Seq<VertexModel>, ve: u64) -> bool {
    lt_bits(ve, s.last().value)
}

/// The contracted point is accepted when its value beats the worst vertex.
pub open spec fn accepts_contracted(s: Seq<VertexModel>, vc: u64) -> bool {
    lt_bits(vc, s.last().value)
}

/// None of the three candidates is accepted, so the whole figure shrinks.
pub open spec fn shrinks(s: Seq<VertexModel>, vr: u64, ve: u64, vc: u64) -> bool {
    !accepts_reflected(s, vr) && !accepts_expanded(s, ve) && !accepts_contracted(s, vc)
}

/// One step of the search, as a mathematical function of the sorted simplex,
/// the coefficients and the box: the candidates in their priority order
/// (reflection, expansion with its tie-break against the reflected value,
/// contraction), and otherwise the shrink toward the best vertex.
pub open spec fn step_spec<O: Objective>(
    o: &O,
    s: Seq<VertexModel>,
    params: Params,
    b: Seq<(u64, u64)>,
) -> Seq<VertexModel> {
    let xr = reflect_spec(s, params.alpha, b);
    let vr = o.value_spec(xr);
    let xe = expand_spec(s, params.alpha, params.gamma, b);
    let ve = o.value_spec(xe);
    let xc = contract_spec(s, params.rho, b);
    let vc = o.value_spec(xc);
    if accepts_reflected(s, vr) {
        add_vertex_spec(s, VertexModel { point: xr, value: vr })
    } else if accepts_expanded(s, ve) {
        if lt_bits(ve, vr) {
            add_vertex_spec(s, VertexModel { point: xe, value: ve })
        } else {
            add_vertex_spec(s, VertexModel { point: xr, value: vr })
        }
    } else if accepts_contracted(s, vc) {
        add_vertex_spec(s, VertexModel { point: xc, value: vc })
    } else {
        sort_by_value_spec(shrink_list_spec(o, s, params.delta))
    }
}

/// Whether the step meets a NaN value: at one of the three candidates, or,
/// when the figure shrinks, at one of the rebuilt vertices.
pub open spec fn step_nan<O: Objective>(
    o: &O,
    s: Seq<VertexModel>,
    params: Params,
    b: Seq<(u64, u64)>,
) -> bool {
    let vr = o.value_spec(reflect_spec(s, params.alpha, b));
    let ve = o.value_spec(expand_spec(s, params.alpha, params.gamma, b));
    let vc = o.value_spec(contract_spec(s, params.rho, b));
    ||| is_nan_of(vr)
    ||| is_nan_of(ve)
    ||| is_nan_of(vc)
    ||| (shrinks(s, vr, ve, vc) && exists|i: int|
        0 <= i < s.len() - 1 && is_nan_of(
            #[trigger] o.value_spec(shrink_point_spec(s[0].point, params.delta, s[i + 1].point)),
        ))
}

/// Accepting a vertex of the figure's dimension keeps the simplex
/// well-formed and its size unchanged.
pub proof fn lemma_add_vertex(s: Seq<VertexModel>, vm: VertexModel, n: nat)
    requires
        wf_simplex(s, n),
        !is_nan_of(vm.value),
        vm.point.len() == n,
    ensures
        add_vertex_spec(s, vm).len() == s.len(),
        wf_simplex(add_vertex_spec(s, vm), n),
{
    lemma_insert_pos(s, vm.value);
    lemma_insert_sorted(s, vm);
    let p = insert_pos_spec(s, vm.value);
    let t = insert_sorted_spec(s, vm);
    s.insert_ensures(p, vm);
    assert forall|i: int| 0 <= i < t.len() implies (#[trigger] t[i]).point.len() == n by {
        if i < p {
            assert(t[i] == s[i]);
        } else if i == p {
            assert(t[i] == vm);
        } else {
            assert(t[i] == s[i - 1]);
        }
    }
    let d = t.drop_last();
    assert(forall|i: int| 0 <= i < d.len() ==> #[trigger] d[i] == t[i]);
}

/// Inserts the evaluated point into the sorted simplex and drops the worst
/// vertex: how an accepted candidate joins the figure.
pub fn add_point<O: Objective>(o: &O, simplex: Simplex, point: Vec<u64>) -> (r: Result<
    Simplex,
    SolverError,
>)
    requires
        wf_simplex(simplex@, o.dim_spec()),
        point@.len() == o.dim_spec(),
    ensures
        match r {
            Ok(s2) => {
                &&& !is_nan_of(o.value_spec(point@))
                &&& s2@ == add_vertex_spec(
                    simplex@,
                    (VertexModel { point: point@, value: o.value_spec(point@) }),
                )
                &&& wf_simplex(s2@, o.dim_spec())
                &&& s2@.len() == simplex@.len()
            },
            Err(e) => e == SolverError::NanValue && is_nan_of(o.value_spec(point@)),
        },
{
    let ghost s = simplex@;
    let value = o.eval(&point);
    if is_nan(value) {
        return Err(SolverError::NanValue);
    }
    let ghost vm = VertexModel { point: point@, value: value };
    proof {
        lemma_add_vertex(s, vm, o.dim_spec());
    }
    let Simplex { vertices: mut vs } = simplex;
    insert_vertex(&mut vs, Vertex { point, value });
    vs.pop();
    proof {
        assert(models_of(vs@) =~= insert_sorted_spec(s, vm).drop_last());
    }
    Ok(Simplex { vertices: vs })
}

/// The centroid of all vertices but the worst: how both the step and the
/// driver condense the best part of the figure into one point.
#[verifier::loop_isolation(false)]
pub fn best_centroid(simplex: &Simplex) -> (r: Vec<u64>)
    requires
        simplex@.len() >= 2,
        points_dim(simplex@, simplex@[0].point.len()),
    ensures
        r@ == centroid_spec(simplex@),
        r@.len() == simplex@[0].point.len(),
{
    let ghost s = simplex@;
    let ghost dim = s[0].point.len();
    let n = simplex.vertices.len() - 1;
    let mut median_list: Vec<Vec<u64>> = Vec::new();
    let mut i: usize = 0;
    while i < n
        invariant
            i <= n,
            median_list@.len() == i,
            forall|j: int| 0 <= j < i ==> (#[trigger] median_list@[j])@ == s[j].point,
        decreases n - i,
    {
        proof {
            assert(s[i as int] == simplex.vertices@[i as int]@);
        }
        median_list.push(clone_point(&simplex.vertices[i].point));
        i = i + 1;
    }
    proof {
        assert forall|j: int| 0 <= j < n implies #[trigger] median_list.deep_view()[j]
            == best_points_spec(s)[j] by {
            assert(median_list.deep_view()[j] =~= median_list@[j]@);
            assert(s.drop_last()[j] == s[j]);
        }
        assert(median_list.deep_view() =~= best_points_spec(s));
        assert(best_points_spec(s)[0].len() == dim);
        assert forall|j: int| 0 <= j < n implies (#[trigger] best_points_spec(s)[j]).len()
            == dim by {
            assert(s.drop_last()[j] == s[j]);
        }
        crate::algebra::lemma_avg_len(best_points_spec(s), dim);
    }
    avg(&median_list)
}

/// One step of the search: computes the clipped reflected, expanded and
/// contracted candidates, evaluates them, and rebuilds the figure by the
/// first decision that applies, in the priority order reflection,
/// expansion (with its tie-break against the reflected value), contraction,
/// shrink.  Returns the NaN error rather than ever placing a NaN value in
/// the figure; the result is otherwise exactly `step_spec` of the inputs,
/// and stays well-formed.
#[verifier::loop_isolation(false)]
#[verifier::rlimit(100)]
pub fn step<O: Objective>(
    o: &O,
    simplex: Simplex,
    params: &Params,
    bounds_vec: &Vec<(u64, u64)>,
) -> (r: Result<Simplex, SolverError>)
    requires
        wf_simplex(simplex@, o.dim_spec()),
        bounds_vec@.len() == o.dim_spec(),
    ensures
        match r {
            Ok(s2) => {
                &&& !step_nan(o, simplex@, *params, bounds_vec@)
                &&& s2@ == step_spec(o, simplex@, *params, bounds_vec@)
                &&& wf_simplex(s2@, o.dim_spec())
                &&& s2@.len() == simplex@.len()
            },
            Err(e) => e == SolverError::NanValue && step_nan(o, simplex@, *params, bounds_vec@),
        },
{
    let ghost s = simplex@;
    let ghost dim = o.dim_spec();
    let n = simplex.vertices.len() - 1;
    proof {
        assert(s.len() == simplex.vertices@.len());
        assert(s[0] == simplex.vertices@[0]@);
        assert(s[n - 1] == simplex.vertices@[n - 1]@);
        assert(s[n as int] == simplex.vertices@[n as int]@);
    }
    let x1 = clone_point(&simplex.vertices[0].point);
    let fx1 = simplex.vertices[0].value;
    let fxn = simplex.vertices[n - 1].value;
    let fxn1 = simplex.vertices[n].value;

    let x0 = best_centroid(&simplex);
    proof {
        assert(s[0].point.len() == dim);
        assert(x0@.len() == dim);
    }
    let xn1 = clone_point(&simplex.vertices[n].point);

    let xr = clamp(&sum(&x0, &mult(params.alpha, &diff(&x0, &xn1))), bounds_vec);
    proof {
        assert(xr@ == reflect_spec(s, params.alpha, bounds_vec@));
    }
    let fxr = o.eval(&xr);
    if is_nan(fxr) {
        return Err(SolverError::NanValue);
    }
    let xe = clamp(&sum(&x0, &mult(params.gamma, &diff(&xr, &x0))), bounds_vec);
    proof {
        assert(xe@ == expand_spec(s, params.alpha, params.gamma, bounds_vec@));
    }
    let fxe = o.eval(&xe);
    if is_nan(fxe) {
        return Err(SolverError::NanValue);
    }
    let xc = clamp(&sum(&x0, &mult(params.rho, &diff(&xn1, &x0))), bounds_vec);
    proof {
        assert(xc@ == contract_spec(s, params.rho, bounds_vec@));
    }
    let fxc = o.eval(&xc);
    if is_nan(fxc) {
        return Err(SolverError::NanValue);
    }
    let ghost vr = o.value_spec(reflect_spec(s, params.alpha, bounds_vec@));
    let ghost ve = o.value_spec(expand_spec(s, params.alpha, params.gamma, bounds_vec@));
    let ghost vc = o.value_spec(contract_spec(s, params.rho, bounds_vec@));
    proof {
        assert(fxr == vr);
        assert(fxe == ve);
        assert(fxc == vc);
        assert(fx1 == s[0].value);
        assert(fxn == s[s.len() - 2].value);
        assert(fxn1 == s.last().value);
    }

    if le(fx1, fxr) && lt(fxr, fxn) {
        proof {
            assert(accepts_reflected(s, vr));
        }
        add_point(o, simplex, xr)
    } else if lt(fxe, fxn1) {
        proof {
            assert(!accepts_reflected(s, vr));
            assert(accepts_expanded(s, ve));
        }
        if lt(fxe, fxr) {
            add_point(o, simplex, xe)
        } else {
            add_point(o, simplex, xr)
        }
    } else if lt(fxc, fxn1) {
        proof {
            assert(!accepts_reflected(s, vr));
            assert(!accepts_expanded(s, ve));
            assert(accepts_contracted(s, vc));
        }
        add_point(o, simplex, xc)
    } else {
        proof {
            assert(shrinks(s, vr, ve, vc));
        }
        let ghost shrink_l = shrink_list_spec(o, s, params.delta);
        let mut new_vertices: Vec<Vertex> = Vec::new();
        let mut i: usize = 1;
        while i <= n
            invariant
                1 <= i <= n + 1,
                n + 1 == s.len(),
                s == simplex@,
                wf_simplex(s, dim),
                dim == o.dim_spec(),
                x1@ == s[0].point,
                shrink_l == shrink_list_spec(o, s, params.delta),
                models_of(new_vertices@) == sort_by_value_spec(shrink_l.take(i - 1)),
                sorted_by_value(models_of(new_vertices@)),
                values_not_nan(models_of(new_vertices@)),
                forall|j: int| 0 <= j < i - 1 ==> !is_nan_of((#[trigger] shrink_l[j]).value),
            decreases n + 1 - i,
        {
            proof {
                assert(s[i as int] == simplex.vertices@[i as int]@);
            }
            let xi = sum(&x1, &mult(params.delta, &diff(&simplex.vertices[i].point, &x1)));
            proof {
                assert(xi@ == shrink_point_spec(s[0].point, params.delta, s[i as int].point));
            }
            let fxi = o.eval(&xi);
            if is_nan(fxi) {
                proof {
                    let j = i - 1;
                    assert(0 <= j < s.len() - 1);
                    assert(is_nan_of(
                        #[trigger] o.value_spec(
                            shrink_point_spec(s[0].point, params.delta, s[j + 1].point),
                        ),
                    ));
                    assert(step_nan(o, s, *params, bounds_vec@));
                }
                return Err(SolverError::NanValue);
            }
            proof {
                assert((VertexModel { point: xi@, value: fxi }) == shrink_l[i - 1]);
                assert(shrink_l.take(i as int).drop_last() =~= shrink_l.take(i - 1));
                assert(shrink_l.take(i as int).last() == shrink_l[i - 1]);
            }
            insert_vertex(&mut new_vertices, Vertex { point: xi, value: fxi });
            i = i + 1;
        }
        proof {
            assert((VertexModel { point: x1@, value: fx1 }) == shrink_l[n as int]);
            assert(shrink_l.take(n + 1).drop_last() =~= shrink_l.take(n as int));
            assert(shrink_l.take(n + 1).last() == shrink_l[n as int]);
        }
        insert_vertex(&mut new_vertices, Vertex { point: x1, value: fx1 });
        proof {
            assert(shrink_l.take(n + 1) =~= shrink_l);
            assert forall|j: int| 0 <= j < s.len() - 1 implies !is_nan_of(
                #[trigger] o.value_spec(
                    shrink_point_spec(s[0].point, params.delta, s[j + 1].point),
                ),
            ) by {
                assert(shrink_l[j].value == o.value_spec(
                    shrink_point_spec(s[0].point, params.delta, s[j + 1].point),
                ));
            }
            assert(values_not_nan(shrink_l));
            assert forall|j: int| 0 <= j < shrink_l.len() implies (#[trigger] shrink_l[j]).point.len()
                == dim by {}
            lemma_sort_by_value(shrink_l, dim);
            assert(models_of(new_vertices@) == sort_by_value_spec(shrink_l));
        }
        Ok(Simplex { vertices: new_vertices })
    }
}

/// Law: the step is deterministic.  Its contract returns exactly
/// `step_spec` of the simplex, the coefficients and the box, so two step
/// results from the same inputs are the same simplex, bit for bit.
pub proof fn lemma_step_deterministic<O: Objective>(
    o: &O,
    s: Seq<VertexModel>,
    params: Params,
    b: Seq<(u64, u64)>,
    r1: Seq<VertexModel>,
    r2: Seq<VertexModel>,
)
    requires
        r1 == step_spec(o, s, params, b),
        r2 == step_spec(o, s, params, b),
    ensures
        r1 == r2,
{
}

/// The simplex after `k` steps, as a mathematical function of the starting
/// simplex, the coefficients and the box.
pub open spec fn run_spec<O: Objective>(
    o: &O,
    s: Seq<VertexModel>,
    params: Params,
    b: Seq<(u64, u64)>,
    k: nat,
) -> Seq<VertexModel>
    decreases k,
{
    if k == 0 {
        s
    } else {
        step_spec(o, run_spec(o, s, params, b, (k - 1) as nat), params, b)
    }
}

/// Whether one of the first `k` steps meets a NaN value.
pub open spec fn run_nan<O: Objective>(
    o: &O,
    s: Seq<VertexModel>,
    params: Params,
    b: Seq<(u64, u64)>,
    k: nat,
) -> bool
    decreases k,
{
    if k == 0 {
        false
    } else {
        run_nan(o, s, params, b, (k - 1) as nat) || step_nan(
            o,
            run_spec(o, s, params, b, (k - 1) as nat),
            params,
            b,
        )
    }
}

/// A NaN met within the first `k1` steps is met within any longer run.
pub proof fn lemma_run_nan_mono<O: Objective>(
    o: &O,
    s: Seq<VertexModel>,
    params: Params,
    b: Seq<(u64, u64)>,
    k1: nat,
    k2: nat,
)
    requires
        k1 <= k2,
        run_nan(o, s, params, b, k1),
    ensures
        run_nan(o, s, params, b, k2),
    decreases k2,
{
    if k2 > k1 {
        lemma_run_nan_mono(o, s, params, b, k1, (k2 - 1) as nat);
    }
}

/// What the driver extracts from the final simplex: the better, by value,
/// of the best vertex and the centroid of all vertices but the worst.
pub open spec fn pick_spec<O: Objective>(o: &O, s: Seq<VertexModel>) -> (Seq<u64>, u64) {
    let x0 = centroid_spec(s);
    let v0 = o.value_spec(x0);
    if lt_bits(s[0].value, v0) {
        (s[0].point, s[0].value)
    } else {
        (x0, v0)
    }
}

/// Runs exactly `max_iter` steps on the given simplex — there is no early
/// convergence exit — then returns the better of the final best vertex and
/// the centroid of the final best vertices, with its value.  A malformed
/// simplex or a dimension disagreement is refused up front; a NaN value met
/// along the way abandons the run.  On success the result is exactly
/// `pick_spec` of `run_spec` of the inputs.
#[verifier::loop_isolation(false)]
pub fn minimize<O: Objective>(
    o: &O,
    initial_simplex: Simplex,
    params: Params,
    bounds: Bounds,
    max_iter: u32,
) -> (r: Result<(Vec<u64>, u64), SolverError>)
    ensures
        ({
            let s = initial_simplex@;
            let dimn = o.dim_spec();
            let b = crate::bounds::pairs_spec(bounds.min@, bounds.max@);
            if s.len() < 2 {
                r == Err::<(Vec<u64>, u64), SolverError>(SolverError::InvalidSimplex)
            } else if !points_dim(s, dimn) {
                r == Err::<(Vec<u64>, u64), SolverError>(SolverError::InvalidDimension)
            } else if !(values_not_nan(s) && sorted_by_value(s)) {
                r == Err::<(Vec<u64>, u64), SolverError>(SolverError::InvalidSimplex)
            } else if !(bounds.min@.len() == dimn && bounds.max@.len() == dimn) {
                r == Err::<(Vec<u64>, u64), SolverError>(SolverError::InvalidDimension)
            } else if run_nan(o, s, params, b, max_iter as nat) {
                r == Err::<(Vec<u64>, u64), SolverError>(SolverError::NanValue)
            } else {
                r matches Ok(pv) && pv.0@ == pick_spec(o, run_spec(o, s, params, b, max_iter as nat)).0
                    && pv.1 == pick_spec(o, run_spec(o, s, params, b, max_iter as nat)).1
            }
        }),
{
    let ghost s0 = initial_simplex@;
    let ghost dimn = o.dim_spec();
    if initial_simplex.vertices.len() < 2 {
        return Err(SolverError::InvalidSimplex);
    }
    let d = o.dim();
    let mut i: usize = 0;
    while i < initial_simplex.vertices.len()
        invariant
            i <= s0.len(),
            forall|j: int| 0 <= j < i ==> (#[trigger] s0[j]).point.len() == dimn,
        decreases s0.len() - i,
    {
        proof {
            assert(s0[i as int] == initial_simplex.vertices@[i as int]@);
        }
        if initial_simplex.vertices[i].point.len() != d {
            return Err(SolverError::InvalidDimension);
        }
        i = i + 1;
    }
    let mut i: usize = 0;
    while i < initial_simplex.vertices.len()
        invariant
            i <= s0.len(),
            forall|j: int| 0 <= j < i ==> !is_nan_of((#[trigger] s0[j]).value),
            forall|j: int| 0 <= j < i - 1 ==> le_bits((#[trigger] s0[j]).value, s0[j + 1].value),
        decreases s0.len() - i,
    {
        proof {
            assert(s0[i as int] == initial_simplex.vertices@[i as int]@);
            assert(i > 0 ==> s0[i - 1] == initial_simplex.vertices@[i - 1]@);
        }
        if is_nan(initial_simplex.vertices[i].value) {
            return Err(SolverError::InvalidSimplex);
        }
        if i > 0 && !le(initial_simplex.vertices[i - 1].value, initial_simplex.vertices[i].value) {
            return Err(SolverError::InvalidSimplex);
        }
        i = i + 1;
    }
    if bounds.min.len() != d || bounds.max.len() != d {
        return Err(SolverError::InvalidDimension);
    }
    let bounds_vec = bounds.as_vec();
    let ghost b = bounds_vec@;
    proof {
        assert(wf_simplex(s0, dimn));
    }
    let mut curr_simplex = initial_simplex;
    let mut it: u32 = 0;
    while it < max_iter
        invariant
            it <= max_iter,
            curr_simplex@ == run_spec(o, s0, params, b, it as nat),
            !run_nan(o, s0, params, b, it as nat),
            wf_simplex(curr_simplex@, dimn),
            curr_simplex@.len() == s0.len(),
        decreases max_iter - it,
    {
        match step(o, curr_simplex, &params, &bounds_vec) {
            Ok(s2) => {
                curr_simplex = s2;
            },
            Err(_) => {
                proof {
                    lemma_run_nan_mono(o, s0, params, b, (it + 1) as nat, max_iter as nat);
                }
                return Err(SolverError::NanValue);
            },
        }
        it = it + 1;
    }
    let x1 = clone_point(&curr_simplex.vertices[0].point);
    let fx1 = curr_simplex.vertices[0].value;
    proof {
        assert(curr_simplex@[0] == curr_simplex.vertices@[0]@);
    }
    let x0 = best_centroid(&curr_simplex);
    let fx0 = o.eval(&x0);
    if lt(fx1, fx0) {
        Ok((x1, fx1))
    } else {
        Ok((x0, fx0))
    }
}

/// The outside error type of the entropy source.
#[verifier::external_type_specification]
#[verifier::external_body]
pub struct ExRandError(rand::Error);

/// Relies on rand's `OsRng`: sixty-four bits drawn from the operating
/// system's entropy source.  No two calls need agree on anything; a failure
/// of the source is returned, not hidden.
#[verifier::external_body]
fn os_entropy_u64() -> (r: Result<u64, rand::Error>) {
    let mut buf = [0u8; 8];
    match rand::rngs::OsRng.try_fill_bytes(&mut buf) {
        Ok(()) => Ok(u64::from_le_bytes(buf)),
        Err(e) => Err(e),
    }
}

/// The perturbation drawn from one entropy word: the word's top fifty-three
/// bits scaled into the unit interval, then mapped affinely onto the
/// symmetric interval reaching from minus the radius to the radius.
pub open spec fn sample_spec(radius: u64, raw: u64) -> u64 {
    let unit = mul_of(of_u64(raw >> 11), UNIT_STEP_BITS);
    let lo = mul_of(NEG_ONE_BITS, radius);
    let span = sub_of(radius, lo);
    add_of(lo, mul_of(span, unit))
}

/// Draws the perturbation of one coordinate from one entropy word.
fn sample(radius: u64, raw: u64) -> (r: u64)
    ensures
        r == sample_spec(radius, raw),
{
    let unit = fmul(ffrom_u64(raw >> 11), UNIT_STEP_BITS);
    let lo = fmul(NEG_ONE_BITS, radius);
    let span = fsub(radius, lo);
    fadd(lo, fmul(span, unit))
}

/// The candidate points built from a center, a radius and a table of
/// entropy words: one more point than the dimension, each coordinate of the
/// center perturbed by the sample drawn from its own word.
pub open spec fn seeded_points_spec(center: Seq<u64>, radius: u64, raws: Seq<u64>) -> Seq<
    Seq<u64>,
> {
    Seq::new(
        center.len() + 1,
        |j: int|
            Seq::new(
                center.len(),
                |i: int| add_of(center[i], sample_spec(radius, raws[j * center.len() + i])),
            ),
    )
}

/// The candidate points, each evaluated under the objective.
pub open spec fn seeded_vertices_spec<O: Objective>(o: &O, pts: Seq<Seq<u64>>) -> Seq<
    VertexModel,
> {
    pts.map_values(|p: Seq<u64>| VertexModel { point: p, value: o.value_spec(p) })
}

/// Some candidate point of the seeded table evaluates to NaN under the
/// objective.
pub open spec fn seeded_nan<O: Objective>(
    o: &O,
    center: Seq<u64>,
    radius: u64,
    raws: Seq<u64>,
) -> bool {
    exists|j: int|
        0 <= j < center.len() + 1 && is_nan_of(
            #[trigger] o.value_spec(seeded_points_spec(center, radius, raws)[j]),
        )
}

/// The simplex `s` is the sorted evaluation of the points seeded by the
/// entropy words `raws`.
pub open spec fn seeded_start<O: Objective>(
    o: &O,
    center: Seq<u64>,
    radius: u64,
    raws: Seq<u64>,
    s: Seq<VertexModel>,
) -> bool {
    s == sort_by_value_spec(seeded_vertices_spec(o, seeded_points_spec(center, radius, raws)))
}

/// Builds the starting figure: one more point than the dimension, each a
/// copy of the center with every coordinate perturbed by an independent
/// uniform draw from the symmetric interval around zero of the given
/// radius; each point is evaluated and the list is sorted ascending by
/// value.  The draws come from the operating system's entropy source, so
/// two runs need not agree; what is promised of every outcome is that the
/// result is exactly the sorted evaluation of points seeded by some table
/// of entropy words.  A failed entropy source, or an objective returning
/// NaN at a candidate, is returned as the matching error.
#[verifier::loop_isolation(false)]
pub fn new_simplex<O: Objective>(o: &O, center: Vec<u64>, radius: u64) -> (r: Result<
    Simplex,
    SolverError,
>)
    requires
        center@.len() == o.dim_spec(),
        center@.len() >= 1,
        center@.len() < usize::MAX,
    ensures
        match r {
            Ok(s) => {
                &&& wf_simplex(s@, o.dim_spec())
                &&& s@.len() == center@.len() + 1
                &&& exists|raws: Seq<u64>| seeded_start(o, center@, radius, raws, s@)
            },
            Err(e) => {
                &&& e == SolverError::NanValue || e == SolverError::Entropy
                &&& e == SolverError::NanValue ==> exists|raws: Seq<u64>|
                    seeded_nan(o, center@, radius, raws)
            },
        },
{
    let ghost dimn = o.dim_spec();
    let n = center.len();
    let ghost mut raws: Seq<u64> = Seq::<u64>::empty();
    let ghost mut built: Seq<VertexModel> = Seq::<VertexModel>::empty();
    let mut sorted_vertices: Vec<Vertex> = Vec::new();
    let mut j: usize = 0;
    while j < n + 1
        invariant
            j <= n + 1,
            n == center@.len(),
            raws.len() == j * n,
            built.len() == j,
            forall|jj: int|
                0 <= jj < j ==> (#[trigger] built[jj]).point == Seq::new(
                    center@.len(),
                    |i: int| add_of(center@[i], sample_spec(radius, raws[jj * center@.len() + i])),
                ),
            forall|jj: int|
                0 <= jj < j ==> (#[trigger] built[jj]).value == o.value_spec(built[jj].point),
            values_not_nan(built),
            points_dim(built, dimn),
            models_of(sorted_vertices@) == sort_by_value_spec(built),
            sorted_by_value(models_of(sorted_vertices@)),
            values_not_nan(models_of(sorted_vertices@)),
        decreases n + 1 - j,
    {
        let ghost raws_before = raws;
        let mut point: Vec<u64> = Vec::new();
        let mut i: usize = 0;
        while i < n
            invariant
                i <= n,
                point@.len() == i,
                raws.len() == j * n + i,
                forall|k: int| 0 <= k < raws_before.len() ==> raws_before[k] == #[trigger] raws[k],
                forall|ii: int|
                    0 <= ii < i ==> #[trigger] point@[ii] == add_of(
                        center@[ii],
                        sample_spec(radius, raws[j * n + ii]),
                    ),
            decreases n - i,
        {
            let w = match os_entropy_u64() {
                Ok(w) => w,
                Err(_) => {
                    return Err(SolverError::Entropy);
                },
            };
            proof {
                raws = raws.push(w);
            }
            point.push(fadd(center[i], sample(radius, w)));
            i = i + 1;
        }
        let value = o.eval(&point);
        if is_nan(value) {
            proof {
                assert(point@ =~= seeded_points_spec(center@, radius, raws)[j as int]);
                assert(is_nan_of(
                    o.value_spec(seeded_points_spec(center@, radius, raws)[j as int]),
                ));
                assert(seeded_nan(o, center@, radius, raws));
            }
            return Err(SolverError::NanValue);
        }
        let ghost vm = VertexModel { point: point@, value: value };
        let ghost built_before = built;
        proof {
            built = built.push(vm);
            assert(built.drop_last() =~= built_before);
            assert(built.last() == vm);
            assert(vm.point =~= Seq::new(
                center@.len(),
                |i: int| add_of(center@[i], sample_spec(radius, raws[j * center@.len() + i])),
            ));
            assert forall|jj: int| 0 <= jj < j implies (#[trigger] built[jj]).point == Seq::new(
                center@.len(),
                |i: int| add_of(center@[i], sample_spec(radius, raws[jj * center@.len() + i])),
            ) by {
                assert(built[jj] == built_before[jj]);
                assert forall|i: int| 0 <= i < center@.len() implies raws_before[jj * center@.len()
                    + i] == #[trigger] raws[jj * center@.len() + i] by {
                    assert(0 <= jj * center@.len() + i < raws_before.len()) by (nonlinear_arith)
                        requires
                            0 <= jj < j,
                            0 <= i < center@.len(),
                            raws_before.len() == j * center@.len(),
                    ;
                }
                assert(Seq::new(
                    center@.len(),
                    |i: int|
                        add_of(
                            center@[i],
                            sample_spec(radius, raws_before[jj * center@.len() + i]),
                        ),
                ) =~= Seq::new(
                    center@.len(),
                    |i: int| add_of(center@[i], sample_spec(radius, raws[jj * center@.len() + i])),
                ));
            }
        }
        insert_vertex(&mut sorted_vertices, Vertex { point, value });
        j = j + 1;
        proof {
            assert(raws.len() == j * n) by (nonlinear_arith)
                requires
                    raws.len() == (j - 1) * n + n,
            ;
        }
    }
    proof {
        assert(raws.len() == (n + 1) * n);
        let full = seeded_vertices_spec(o, seeded_points_spec(center@, radius, raws));
        assert forall|jj: int| 0 <= jj < built.len() implies #[trigger] built[jj] == full[jj] by {
            assert(built[jj].point =~= seeded_points_spec(center@, radius, raws)[jj]);
        }
        assert(built =~= full);
        lemma_sort_by_value(built, dimn);
        assert(seeded_start(o, center@, radius, raws, models_of(sorted_vertices@)));
    }
    Ok(Simplex { vertices: sorted_vertices })
}

} // verus!

use nelder_mead::bounds::Bounds;
use nelder_mead::objective::{Objective, Quadratic};
use nelder_mead::params::Params;
use nelder_mead::simplex::{Simplex, Vertex, new_simplex, step};
use nelder_mead::scalar::{ONE_BITS, TWO_BITS, HALF_BITS};
use nelder_mead::{minimize, maximize, minimize_unbounded, SolverError};

fn bits(x: f64) -> u64 {
    x.to_bits()
}

fn point(xs: &[f64]) -> Vec<u64> {
    xs.iter().map(|x| x.to_bits()).collect()
}

/// The objective `a0·(x−s0)² + a1·(x−s1)² + b0·x + b1·y + c` over two
/// variables.
fn quadratic2(a: [f64; 2], s: [f64; 2], b: [f64; 2], c: f64) -> Quadratic {
    Quadratic::new(point(&a), point(&s), point(&b), bits(c)).unwrap()
}

fn assert_sorted(s: &Simplex) {
    for i in 0..s.vertices.len() - 1 {
        let a = f64::from_bits(s.vertices[i].value);
        let b = f64::from_bits(s.vertices[i + 1].value);
        assert!(a <= b);
    }
}

#[test]
fn params_default_holds_the_conventional_coefficients() {
    let p = Params::default();
    assert_eq!(p.alpha, ONE_BITS);
    assert_eq!(p.gamma, TWO_BITS);
    assert_eq!(p.rho, HALF_BITS);
    assert_eq!(p.delta, HALF_BITS);
}

#[test]
fn quadratic_refuses_mismatched_coefficient_lengths() {
    assert!(Quadratic::new(point(&[1.0, 1.0]), point(&[0.0]), point(&[0.0, 0.0]), 0).is_none());
}

/// The value the quadratic objective computes, accumulated in the same
/// order as its evaluation: the constant, then each dimension's term.
fn eval2(a: [f64; 2], s: [f64; 2], b: [f64; 2], c: f64, p: [f64; 2]) -> f64 {
    let mut acc = c;
    for i in 0..2 {
        let d = p[i] - s[i];
        acc = acc + (a[i] * (d * d) + b[i] * p[i]);
    }
    acc
}

#[test]
fn new_simplex_builds_a_sorted_figure_around_the_center() {
    let f = quadratic2([1.0, 1.0], [0.0, 0.0], [0.0, 0.0], 5.0);
    let s = new_simplex(&f, point(&[2.0, 2.0]), bits(0.5)).unwrap();
    assert_eq!(s.vertices.len(), 3);
    assert_sorted(&s);
    for v in &s.vertices {
        assert_eq!(v.point.len(), 2);
        let x = f64::from_bits(v.point[0]);
        let y = f64::from_bits(v.point[1]);
        assert!((x - 2.0).abs() <= 0.5);
        assert!((y - 2.0).abs() <= 0.5);
        let expected = eval2([1.0, 1.0], [0.0, 0.0], [0.0, 0.0], 5.0, [x, y]);
        assert_eq!(v.value, expected.to_bits());
    }
}

#[test]
fn step_keeps_the_figure_sorted() {
    let f = quadratic2([1.0, 1.0], [-1.0, 0.0], [0.0, 0.0], 0.0);
    let bounds_vec = Bounds::none(2).as_vec();
    let mut s = new_simplex(&f, point(&[5.0, 5.0]), bits(1.0)).unwrap();
    assert_sorted(&s);
    for _ in 0..25 {
        s = step(&f, s, &Params::default(), &bounds_vec).unwrap();
        assert_eq!(s.vertices.len(), 3);
        assert_sorted(&s);
    }
}

fn fixed_simplex(f: &Quadratic) -> Simplex {
    let mut vertices: Vec<Vertex> = Vec::new();
    for xs in [[4.5, 5.0], [5.0, 4.75], [5.25, 5.5]].iter() {
        let p = point(xs);
        let value = f.eval(&p);
        vertices.push(Vertex { point: p, value });
    }
    vertices.sort_by(|a, b| f64::from_bits(a.value).partial_cmp(&f64::from_bits(b.value)).unwrap());
    Simplex { vertices }
}

#[test]
fn step_is_deterministic_on_a_fixed_simplex() {
    let f = quadratic2([1.0, 1.0], [-1.0, 0.0], [0.0, 0.0], 0.0);
    let bounds_vec = Bounds::none(2).as_vec();
    let r1 = step(&f, fixed_simplex(&f), &Params::default(), &bounds_vec).unwrap();
    let r2 = step(&f, fixed_simplex(&f), &Params::default(), &bounds_vec).unwrap();
    assert_eq!(r1.vertices.len(), r2.vertices.len());
    for (a, b) in r1.vertices.iter().zip(r2.vertices.iter()) {
        assert_eq!(a.point, b.point);
        assert_eq!(a.value, b.value);
    }
}

#[test]
fn minimize_square() {
    let f = quadratic2([1.0, 1.0], [0.0, 0.0], [0.0, 0.0], 5.0);
    let initial_simplex = new_simplex(&f, point(&[2.0, 2.0]), bits(0.5)).unwrap();
    let (p, value) = nelder_mead::simplex::minimize(
        &f,
        initial_simplex,
        Params::default(),
        Bounds::none(2),
        500,
    )
        .unwrap();
    assert!((f64::from_bits(p[0]) - 0.0).abs() < 1e-6);
    assert!((f64::from_bits(p[1]) - 0.0).abs() < 1e-6);
    assert!((f64::from_bits(value) - 5.0).abs() < 1e-6);
}

#[test]
fn minimize_with_bounds() {
    let f = quadratic2([0.0, 0.0], [0.0, 0.0], [1.0, 1.0], 5.0);
    let bounds = Bounds { min: point(&[-1.0, 0.5]), max: point(&[10.0, 10.0]) };
    let initial_simplex = new_simplex(&f, point(&[2.0, 2.0]), bits(0.5)).unwrap();
    let (p, value) = nelder_mead::simplex::minimize(
        &f,
        initial_simplex,
        Params::default(),
        bounds,
        500,
    )
        .unwrap();
    assert!((f64::from_bits(p[0]) - -1.0).abs() < 1e-6);
    assert!((f64::from_bits(p[1]) - 0.5).abs() < 1e-6);
    assert!((f64::from_bits(value) - 4.5).abs() < 1e-6);
}

#[test]
fn minimizes_a_shifted_square_without_bounds() {
    let f = quadratic2([1.0, 1.0], [-1.0, 0.0], [0.0, 0.0], 0.0);
    let (p, value) = minimize_unbounded(&f, point(&[5.0, 5.0]), bits(1.0), Params::default(), 1000)
        .unwrap();
    assert!((f64::from_bits(p[0]) - -1.0).abs() < 1e-6);
    assert!((f64::from_bits(p[1]) - 0.0).abs() < 1e-6);
    assert!((f64::from_bits(value) - 0.0).abs() < 1e-6);
}

#[test]
fn minimizes_a_shifted_square_against_the_box() {
    let f = quadratic2([1.0, 1.0], [-1.0, 0.0], [0.0, 0.0], 0.0);
    let bounds = Bounds { min: point(&[0.0, 0.0]), max: point(&[10.0, 10.0]) };
    let (p, value) = minimize(&f, point(&[5.0, 5.0]), bits(1.0), Params::default(), bounds, 1000)
        .unwrap();
    assert!((f64::from_bits(p[0]) - 0.0).abs() < 1e-6);
    assert!((f64::from_bits(p[1]) - 0.0).abs() < 1e-6);
    assert!((f64::from_bits(value) - 1.0).abs() < 1e-6);
}

#[test]
fn maximizes_a_downward_paraboloid_against_the_box() {
    let f = quadratic2([-2.0, -2.0], [-1.0, 0.0], [0.0, 0.0], 0.0);
    let bounds = Bounds { min: point(&[0.0, 0.0]), max: point(&[10.0, 10.0]) };
    let (p, value) = maximize(&f, point(&[5.0, 5.0]), bits(1.0), Params::default(), bounds, 1000)
        .unwrap();
    assert!((f64::from_bits(p[0]) - 0.0).abs() < 1e-6);
    assert!((f64::from_bits(p[1]) - 0.0).abs() < 1e-6);
    assert!((f64::from_bits(value) - -2.0).abs() < 1e-6);
}

#[test]
fn minimizes_a_plain_square_from_the_library_entry() {
    let f = quadratic2([1.0, 1.0], [0.0, 0.0], [0.0, 0.0], 5.0);
    let (p, value) = minimize_unbounded(&f, point(&[2.0, 2.0]), bits(0.5), Params::default(), 500)
        .unwrap();
    assert!((f64::from_bits(p[0]) - 0.0).abs() < 1e-6);
    assert!((f64::from_bits(p[1]) - 0.0).abs() < 1e-6);
    assert!((f64::from_bits(value) - 5.0).abs() < 1e-6);
}

#[test]
fn minimizes_a_linear_objective_into_the_box_corner() {
    let f = quadratic2([0.0, 0.0], [0.0, 0.0], [1.0, 1.0], 5.0);
    let bounds = Bounds { min: point(&[-1.0, 0.5]), max: point(&[10.0, 10.0]) };
    let (p, value) = minimize(&f, point(&[2.0, 2.0]), bits(0.5), Params::default(), bounds, 500)
        .unwrap();
    assert!((f64::from_bits(p[0]) - -1.0).abs() < 1e-6);
    assert!((f64::from_bits(p[1]) - 0.5).abs() < 1e-6);
    assert!((f64::from_bits(value) - 4.5).abs() < 1e-6);
}

#[test]
fn an_empty_starting_point_is_refused() {
    let f = quadratic2([1.0, 1.0], [0.0, 0.0], [0.0, 0.0], 0.0);
    let r = minimize_unbounded(&f, Vec::new(), bits(1.0), Params::default(), 10);
    assert_eq!(r, Err(SolverError::InvalidDimension));
}

#[test]
fn a_dimension_disagreement_is_refused() {
    let f = quadratic2([1.0, 1.0], [0.0, 0.0], [0.0, 0.0], 0.0);
    let r = minimize_unbounded(&f, point(&[1.0]), bits(1.0), Params::default(), 10);
    assert_eq!(r, Err(SolverError::InvalidDimension));
    let bounds = Bounds { min: point(&[0.0]), max: point(&[10.0, 10.0]) };
    let r = minimize(&f, point(&[2.0, 2.0]), bits(1.0), Params::default(), bounds, 10);
    assert_eq!(r, Err(SolverError::InvalidDimension));
}

#[test]
fn an_unusable_radius_is_refused() {
    let f = quadratic2([1.0, 1.0], [0.0, 0.0], [0.0, 0.0], 0.0);
    for bad in [0.0, -1.0, f64::NAN, f64::INFINITY].iter() {
        let r = minimize_unbounded(&f, point(&[2.0, 2.0]), bits(*bad), Params::default(), 10);
        assert_eq!(r, Err(SolverError::InvalidRadius));
    }
}

#[test]
fn a_degenerate_simplex_is_refused() {
    let f = quadratic2([1.0, 1.0], [0.0, 0.0], [0.0, 0.0], 0.0);
    let p = point(&[1.0, 1.0]);
    let value = f.eval(&p);
    let s = Simplex { vertices: vec![Vertex { point: p, value }] };
    let r = nelder_mead::simplex::minimize(&f, s, Params::default(), Bounds::none(2), 10);
    assert_eq!(r, Err(SolverError::InvalidSimplex));
}

#[test]
fn an_unsorted_simplex_is_refused() {
    let f = quadratic2([1.0, 1.0], [0.0, 0.0], [0.0, 0.0], 0.0);
    let mut vertices: Vec<Vertex> = Vec::new();
    for xs in [[3.0, 3.0], [1.0, 1.0], [2.0, 2.0]].iter() {
        let p = point(xs);
        let value = f.eval(&p);
        vertices.push(Vertex { point: p, value });
    }
    let s = Simplex { vertices };
    let r = nelder_mead::simplex::minimize(&f, s, Params::default(), Bounds::none(2), 10);
    assert_eq!(r, Err(SolverError::InvalidSimplex));
}

#[test]
fn a_nan_value_inside_the_simplex_is_refused() {
    let f = quadratic2([1.0, 1.0], [0.0, 0.0], [0.0, 0.0], 0.0);
    let vertices = vec![
        Vertex { point: point(&[1.0, 1.0]), value: bits(1.0) },
        Vertex { point: point(&[2.0, 2.0]), value: bits(f64::NAN) },
        Vertex { point: point(&[3.0, 3.0]), value: bits(3.0) },
    ];
    let s = Simplex { vertices };
    let r = nelder_mead::simplex::minimize(&f, s, Params::default(), Bounds::none(2), 10);
    assert_eq!(r, Err(SolverError::InvalidSimplex));
}

#[test]
fn a_nan_returning_objective_abandons_the_run() {
    let f = quadratic2([0.0, 0.0], [0.0, 0.0], [0.0, 0.0], f64::NAN);
    let s = Simplex {
        vertices: vec![
            Vertex { point: point(&[1.0, 1.0]), value: bits(1.0) },
            Vertex { point: point(&[2.0, 2.0]), value: bits(2.0) },
            Vertex { point: point(&[3.0, 3.0]), value: bits(3.0) },
        ],
    };
    let r = nelder_mead::simplex::minimize(&f, s, Params::default(), Bounds::none(2), 10);
    assert_eq!(r, Err(SolverError::NanValue));
}

#[test]
fn shrink_candidates_are_not_clamped_by_the_box() {
    // A box that excludes the whole figure forces every clipped candidate
    // onto the same corner; the shrunk vertices keep moving outside the box,
    // which only ever constrains the three clipped candidates.
    let f = quadratic2([1.0, 1.0], [0.0, 0.0], [0.0, 0.0], 0.0);
    let bounds_vec = Bounds {
        min: point(&[100.0, 100.0]),
        max: point(&[200.0, 200.0]),
    }
        .as_vec();
    let s = step(&f, fixed_simplex(&f), &Params::default(), &bounds_vec).unwrap();
    let mut some_outside = false;
    for v in &s.vertices {
        if f64::from_bits(v.point[0]) < 100.0 {
            some_outside = true;
        }
    }
    assert!(some_outside);
}

use nelder_mead::bounds::{Bounds, clamp};
use nelder_mead::scalar::{MIN_BITS, MAX_BITS, ONE_BITS, NEG_ONE_BITS, TWO_BITS, HALF_BITS,
    ZERO_BITS, UNIT_STEP_BITS};

fn point(xs: &[f64]) -> Vec<u64> {
    xs.iter().map(|x| x.to_bits()).collect()
}

#[test]
fn scalar_constants_are_the_expected_bit_patterns() {
    assert_eq!(ZERO_BITS, 0.0f64.to_bits());
    assert_eq!(ONE_BITS, 1.0f64.to_bits());
    assert_eq!(NEG_ONE_BITS, (-1.0f64).to_bits());
    assert_eq!(TWO_BITS, 2.0f64.to_bits());
    assert_eq!(HALF_BITS, 0.5f64.to_bits());
    assert_eq!(UNIT_STEP_BITS, (0.5f64 / 4503599627370496.0).to_bits());
    assert_eq!(MIN_BITS, f64::MIN.to_bits());
    assert_eq!(MAX_BITS, f64::MAX.to_bits());
}

#[test]
fn unbounded_box_spans_the_whole_range() {
    let b = Bounds::none(3);
    assert_eq!(b.min, vec![MIN_BITS; 3]);
    assert_eq!(b.max, vec![MAX_BITS; 3]);
    let pairs = b.as_vec();
    assert_eq!(pairs, vec![(MIN_BITS, MAX_BITS); 3]);
}

#[test]
fn clamp_against_the_unbounded_box_is_identity() {
    let b = Bounds::none(4).as_vec();
    let p = point(&[1e307, -1e307, 0.0, -123.456]);
    assert_eq!(clamp(&p, &b), p);
    let nan = point(&[f64::NAN]);
    assert_eq!(clamp(&nan, &Bounds::none(1).as_vec()), nan);
}

#[test]
fn clamp_pulls_infinities_back_to_the_finite_ends() {
    let b = Bounds::none(2).as_vec();
    let p = point(&[f64::INFINITY, f64::NEG_INFINITY]);
    assert_eq!(clamp(&p, &b), vec![MAX_BITS, MIN_BITS]);
}

#[test]
fn clamp_keeps_every_coordinate_inside_the_box() {
    let b = Bounds { min: point(&[-1.0, 0.5, 2.0]), max: point(&[10.0, 10.0, 2.0]) };
    let pairs = b.as_vec();
    let inputs = [
        [-100.0, -100.0, -100.0],
        [100.0, 100.0, 100.0],
        [0.0, 1.0, 2.0],
        [-1.0, 0.5, 2.5],
        [f64::INFINITY, f64::NEG_INFINITY, 0.0],
    ];
    for xs in inputs.iter() {
        let r = clamp(&point(xs), &pairs);
        for i in 0..3 {
            let x = f64::from_bits(r[i]);
            let lo = f64::from_bits(pairs[i].0);
            let hi = f64::from_bits(pairs[i].1);
            assert!(lo <= x && x <= hi);
        }
    }
}

#[test]
fn clamp_keeps_interior_points_unchanged() {
    let b = Bounds { min: point(&[-1.0, 0.5]), max: point(&[10.0, 10.0]) };
    let pairs = b.as_vec();
    let p = point(&[3.25, 0.75]);
    assert_eq!(clamp(&p, &pairs), p);
}

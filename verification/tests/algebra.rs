use nelder_mead::algebra::{sum, diff, mult, avg};

fn bits(x: f64) -> u64 {
    x.to_bits()
}

fn point(xs: &[f64]) -> Vec<u64> {
    xs.iter().map(|x| x.to_bits()).collect()
}

fn floats(p: &[u64]) -> Vec<f64> {
    p.iter().map(|b| f64::from_bits(*b)).collect()
}

#[test]
fn test_sum() {
    assert_eq!(
        sum(&point(&[1.0, 2.0, 3.0]), &point(&[5.0, 6.0, 7.0])),
        point(&[6.0, 8.0, 10.0])
    );
}

#[test]
fn test_diff() {
    assert_eq!(
        diff(&point(&[1.0, 2.0, 3.0]), &point(&[5.0, 6.0, 7.0])),
        point(&[-4.0, -4.0, -4.0])
    );
}

#[test]
fn test_mult() {
    assert_eq!(mult(bits(2.0), &point(&[5.0, 6.0, 7.0])), point(&[10.0, 12.0, 14.0]));
}

#[test]
fn test_avg() {
    assert_eq!(
        avg(&vec![point(&[1.0, 2.0, 3.0]), point(&[5.0, 6.0, 7.0])]),
        point(&[3.0, 4.0, 5.0])
    );
}

#[test]
fn mean_of_three_points_matches_double_arithmetic() {
    let r = avg(&vec![point(&[1.0, 2.0]), point(&[2.0, 3.0]), point(&[6.0, 7.0])]);
    let scale = 1.0f64 / 3.0f64;
    assert_eq!(r, point(&[scale * 9.0, scale * 12.0]));
}

#[test]
fn sum_of_diff_restores_the_first_point() {
    let p = point(&[1.0, 2.0, 3.0]);
    let q = point(&[5.0, 6.0, 7.0]);
    let restored = sum(&diff(&p, &q), &q);
    for (a, b) in floats(&restored).iter().zip(floats(&p).iter()) {
        assert!((a - b).abs() < 1e-6);
    }
}

#[test]
fn scaling_by_one_is_identity() {
    let p = point(&[5.0, -6.5, 0.0, 1e300]);
    assert_eq!(mult(bits(1.0), &p), p);
}

#[test]
fn scaling_by_zero_gives_the_zero_vector() {
    let p = point(&[5.0, -6.5, 0.25, 1e300]);
    let z = mult(bits(0.0), &p);
    assert_eq!(z.len(), p.len());
    for b in z {
        assert_eq!(f64::from_bits(b).abs(), 0.0);
    }
}

#[test]
fn centroid_of_one_point_is_the_point() {
    let p = point(&[1.5, -2.5, 7.0]);
    assert_eq!(avg(&vec![p.clone()]), p);
}

#[test]
fn centroid_of_a_doubled_point_is_the_point() {
    let p = point(&[1.5, -2.5, 7.0]);
    assert_eq!(avg(&vec![p.clone(), p.clone()]), p);
}

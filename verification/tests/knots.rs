use serde_spline::spline::de::SplineError;
use serde_spline::spline::knots::{clamped_uniform_knots, make_clamped_knots};

#[test]
fn clamped_knots_for_degree_one() {
    assert_eq!(make_clamped_knots(4, 1).unwrap(), vec![0, 0, 1, 2, 3, 3]);
    assert_eq!(make_clamped_knots(2, 1).unwrap(), vec![0, 0, 1, 1]);
}

#[test]
fn clamped_knots_for_degree_two() {
    assert_eq!(make_clamped_knots(5, 2).unwrap(), vec![0, 0, 0, 1, 3, 4, 4, 4]);
}

#[test]
fn clamped_knots_are_clamped_and_sorted() {
    for n in 2..=256usize {
        for degree in 1..n.min(5) {
            let knots = make_clamped_knots(n, degree).unwrap();
            assert_eq!(knots.len(), n + degree + 1);
            assert!(knots[..=degree].iter().all(|&k| k == 0));
            assert!(knots[n..].iter().all(|&k| k as usize == n - 1));
            assert!(knots.windows(2).all(|w| w[0] <= w[1]));
        }
    }
}

#[test]
fn clamped_knots_errors() {
    assert_eq!(make_clamped_knots(0, 1).unwrap_err(), SplineError::InvalidData("B-spline requires at least one control point"));
    assert_eq!(make_clamped_knots(3, 0).unwrap_err(), SplineError::InvalidData("B-spline degree must not be zero"));
    assert_eq!(make_clamped_knots(2, 2).unwrap_err(), SplineError::InvalidData("B-spline control point count must exceed degree"));
    assert_eq!(
        make_clamped_knots(257, 1).unwrap_err(),
        SplineError::InvalidData("B-spline knot values exceed the u8 representation")
    );
    assert_eq!(make_clamped_knots(256, 1).unwrap().len(), 258);
}

#[test]
fn uniform_knots() {
    assert_eq!(clamped_uniform_knots(4, 1), vec![0, 0, 1, 2, 3, 3]);
    assert_eq!(clamped_uniform_knots(5, 2), vec![0, 0, 0, 1, 2, 3, 3, 3]);
    assert_eq!(clamped_uniform_knots(2, 1), vec![0, 0, 1, 1]);
}

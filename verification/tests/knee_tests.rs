use limit::{knee_by_chord_distance, knee_by_curvature};

#[test]
fn short_curves_have_no_knee() {
    assert_eq!(knee_by_curvature(&[]), None);
    assert_eq!(knee_by_curvature(&[5]), None);
    assert_eq!(knee_by_curvature(&[5, 9]), None);
    assert_eq!(knee_by_chord_distance(&[]), None);
    assert_eq!(knee_by_chord_distance(&[5]), None);
    assert_eq!(knee_by_chord_distance(&[5, 9]), None);
}

#[test]
fn knee_is_the_first_interior_point_of_greatest_rank() {
    assert_eq!(knee_by_curvature(&[0, 3, 0]), Some(1));
    assert_eq!(knee_by_curvature(&[9, 3, 7, 7, 2, 9]), Some(2));
    assert_eq!(knee_by_curvature(&[0, 1, 2, 3, 0]), Some(3));
    assert_eq!(knee_by_curvature(&[100, 4, 4, 4, 100]), Some(1));
    assert_eq!(knee_by_chord_distance(&[9, 3, 7, 7, 2, 9]), Some(2));
    assert_eq!(knee_by_chord_distance(&[100, 4, 4, 4, 100]), Some(1));
    assert_eq!(knee_by_chord_distance(&[0, u64::MAX, 7, 0]), Some(1));
}

#[test]
fn flat_curves_have_their_first_interior_point_as_knee() {
    assert_eq!(knee_by_curvature(&[0, 0, 0]), Some(1));
    assert_eq!(knee_by_curvature(&[7, 0, 0, 0, 7]), Some(1));
    assert_eq!(knee_by_curvature(&[u64::MAX, 0, 0]), Some(1));
    assert_eq!(knee_by_chord_distance(&[0, 0, 0]), Some(1));
    assert_eq!(knee_by_chord_distance(&[7, 0, 0, 0, 7]), Some(1));
}

fn rank(value: f64) -> u64 {
    if value > 0.0 {
        value.to_bits()
    } else {
        0
    }
}

fn menger(p1: (f64, f64), p2: (f64, f64), p3: (f64, f64)) -> f64 {
    let area = 0.5 * ((p2.0 - p1.0) * (p3.1 - p1.1) - (p3.0 - p1.0) * (p2.1 - p1.1)).abs();
    let d12 = ((p2.0 - p1.0).powi(2) + (p2.1 - p1.1).powi(2)).sqrt();
    let d23 = ((p3.0 - p2.0).powi(2) + (p3.1 - p2.1).powi(2)).sqrt();
    let d31 = ((p1.0 - p3.0).powi(2) + (p1.1 - p3.1).powi(2)).sqrt();
    if d12 * d23 * d31 == 0.0 {
        0.0
    } else {
        4.0 * area / (d12 * d23 * d31)
    }
}

#[test]
fn test_knee_detection() {
    let variance = 2.0f64;
    let points: Vec<(f64, f64)> = [1.0f64, 0.5, 0.25, 0.1]
        .iter()
        .map(|d| (*d, if *d >= variance { 0.0 } else { 0.5 * (variance / d).log2() }))
        .collect();
    assert_eq!(points[0].1, 0.5);
    assert_eq!(points[1].1, 1.0);
    assert_eq!(points[2].1, 1.5);
    let mut ranks = vec![0u64; points.len()];
    for i in 1..points.len() - 1 {
        ranks[i] = rank(menger(points[i - 1], points[i], points[i + 1]));
    }
    let knee = knee_by_curvature(&ranks);
    assert!(knee.is_some());
    assert!(knee == Some(1) || knee == Some(2));
    assert!(ranks[1] > ranks[2]);
    assert_eq!(knee, Some(1));
}

#[test]
fn collinear_points_have_the_interior_point_as_knee() {
    let points = [(1.0f64, 0.0f64), (2.0, 0.0), (3.0, 0.0)];
    let curvature = menger(points[0], points[1], points[2]);
    assert_eq!(curvature, 0.0);
    let ranks = [0, rank(curvature), 0];
    assert_eq!(knee_by_curvature(&ranks), Some(1));
}

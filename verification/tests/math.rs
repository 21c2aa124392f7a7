use sundries::math::Normalize;

fn as_floats(numers: &[i64], denom: i64) -> Vec<f64> {
    numers.iter().map(|n| *n as f64 / denom as f64).collect()
}

#[test]
fn test_normalize() {
    let v: Vec<i64> = vec![1, 2, 3];
    let (numers, denom) = v.normalize(0, 1);
    assert_eq!(as_floats(&numers, denom), vec![0.0, 0.5, 1.0]);
    let (numers, denom) = v.normalize(-1, 1);
    assert_eq!(as_floats(&numers, denom), vec![-1.0, 0.0, 1.0]);
}

#[test]
fn normalize_is_exact_on_the_numerators() {
    let v: Vec<i64> = vec![10, 20, 40];
    let (numers, denom) = v.normalize(0, 3);
    assert_eq!(denom, 30);
    assert_eq!(numers, vec![0, 30, 90]);
}

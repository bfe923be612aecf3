use radio_ml::metric::{Euclidean, Manhattan, PointwiseMetric};
use radio_ml::metric_dtw::DynamicTimeWarping;

// The library measures whole numbers, so each sequence is handed over in
// fixed point: every element multiplied by `scale`, the cost divided by it.
fn fixed(values: &[f64], scale: f64) -> Vec<i64> {
    values.iter().map(|v| (v * scale).round() as i64).collect()
}

#[test]
fn my_test() {
    let child_metric = Manhattan { is_expensive: false };
    assert_eq!(PointwiseMetric::<i64, u64>::name(&child_metric), "manhattan");
    let dtw: DynamicTimeWarping<i64, u64, Manhattan> = DynamicTimeWarping::new(child_metric);
    let x = &[1.0, 3.0, 9.0, 2.0, 1.0];
    let y = &[2.0, 0.0, 0.0, 8.0, 7.0, 2.0];
    let cost = dtw.one_to_one(&fixed(x, 1.0), &fixed(y, 1.0)).unwrap() as f32;

    assert!(cost == 9.0);
}

#[test]
fn my_test_9() {
    let child_metric = Euclidean { is_expensive: false };
    assert_eq!(PointwiseMetric::<i64, u64>::name(&child_metric), "euclidean");
    let dtw: DynamicTimeWarping<i64, u64, Euclidean> = DynamicTimeWarping::new(child_metric);
    let x = &[3.14, 3.14, 3.14, 3.14, 3.14];
    let y = &[3.14, 3.14, 3.14, 3.14, 3.14, 3.14, 3.14, 3.14, 3.14, 3.14];
    let cost = dtw.one_to_one(&fixed(x, 100.0), &fixed(y, 100.0)).unwrap() as f32 / 100.0;

    assert!(cost == 0.0);
}

#[test]
fn my_test_10() {
    let child_metric = Manhattan { is_expensive: false };
    assert_eq!(PointwiseMetric::<i64, u64>::name(&child_metric), "manhattan");
    let dtw: DynamicTimeWarping<i64, u64, Manhattan> = DynamicTimeWarping::new(child_metric);
    let x = &[0.097, 1.419, 0.245, 6.331, 4.276, 3.154, 0.542, 7.115];
    let y = &[0.097, 1.419, 0.245, 6.331, 4.276, 3.154, 0.542, 7.115];
    let cost = dtw.one_to_one(&fixed(x, 1000.0), &fixed(y, 1000.0)).unwrap() as f32 / 1000.0;

    assert!(cost == 0.0);
}

use radio_ml::metric::{Euclidean, MetricError, PointwiseMetric};
use radio_ml::metric_dtw::DynamicTimeWarping;

fn euclidean_dtw() -> DynamicTimeWarping<i16, u8, Euclidean> {
    let child_metric = Euclidean { is_expensive: false };
    assert_eq!(PointwiseMetric::<i16, u8>::name(&child_metric), "euclidean");
    DynamicTimeWarping::new(child_metric)
}

#[test]
fn my_test_2() {
    let dtw = euclidean_dtw();
    let x: &[i16] = &[2, 3, 1, 8, 5, 5, 6];
    let y: &[i16] = &[8, 7, 9, 2];
    let cost = dtw.one_to_one(x, y).unwrap();

    assert!(cost == 27);
}

#[test]
fn my_test_3() {
    let dtw = euclidean_dtw();
    let x: &[i16] = &[2, 3, 1, 8, 5, 5];
    let y: &[i16] = &[8, 7, 9, 2];
    let cost = dtw.one_to_one(x, y).unwrap();

    assert!(cost == 23);
}

#[test]
fn my_test_4() {
    let dtw = euclidean_dtw();
    let x: &[i16] = &[2, 3, 1, 8];
    let y: &[i16] = &[8, 7, 9, 2];
    let cost = dtw.one_to_one(x, y).unwrap();

    assert!(cost == 23);
}

#[test]
fn my_test_5() {
    let dtw = euclidean_dtw();
    let x: &[i16] = &[2, 3, 1];
    let y: &[i16] = &[8, 7, 9, 2];
    let cost = dtw.one_to_one(x, y).unwrap();

    assert!(cost == 17);
}

#[test]
fn my_test_6() {
    let dtw = euclidean_dtw();
    let x: &[i16] = &[2, 3];
    let y: &[i16] = &[8, 7, 9, 2];
    let cost = dtw.one_to_one(x, y).unwrap();

    assert!(cost == 17);
}

#[test]
fn my_test_7() {
    let dtw = euclidean_dtw();
    let x: &[i16] = &[2];
    let y: &[i16] = &[8, 7, 9, 2];
    let cost = dtw.one_to_one(x, y).unwrap();

    assert!(cost == 18);
}

#[test]
fn my_test_8() {
    let dtw = euclidean_dtw();
    let x: &[i16] = &[2, 3, 1, 8, 5];
    let y: &[i16] = &[8, 7, 9];
    let cost = dtw.one_to_one(x, y).unwrap();

    assert!(cost == 21);
}

#[test]
fn empty_input_is_rejected() {
    let dtw = euclidean_dtw();
    let none: &[i16] = &[];
    let some: &[i16] = &[1, 2];
    assert_eq!(dtw.one_to_one(none, some), Err(MetricError::EmptyInput));
    assert_eq!(dtw.one_to_one(some, none), Err(MetricError::EmptyInput));
    assert_eq!(dtw.one_to_one(none, none), Err(MetricError::EmptyInput));
}

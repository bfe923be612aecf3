use radio_ml::metric::{Euclidean, Manhattan, MetricError, PointwiseMetric};
use radio_ml::metric_dtw::DynamicTimeWarping;
use radio_ml::number::Number;

fn manhattan_dtw() -> DynamicTimeWarping<i64, u64, Manhattan> {
    DynamicTimeWarping::new(Manhattan { is_expensive: false })
}

fn narrow_dtw() -> DynamicTimeWarping<i16, u8, Manhattan> {
    DynamicTimeWarping::new(Manhattan { is_expensive: false })
}

#[test]
fn engine_reports_its_name_and_cost() {
    let dtw = manhattan_dtw();
    assert_eq!(dtw.name(), "dtw");
    assert!(dtw.is_expensive());
    let cheap_child: DynamicTimeWarping<i64, u64, Euclidean> =
        DynamicTimeWarping::new(Euclidean { is_expensive: false });
    assert!(cheap_child.is_expensive());
}

#[test]
fn single_cell_is_the_pointwise_distance() {
    let dtw = manhattan_dtw();
    assert_eq!(dtw.one_to_one(&[3], &[10]), Ok(7));
    assert_eq!(dtw.one_to_one(&[10], &[3]), Ok(7));
    assert_eq!(dtw.one_to_one(&[-4], &[-4]), Ok(0));
}

#[test]
fn first_row_and_first_column_accumulate() {
    let dtw = manhattan_dtw();
    // One row: every cell adds its distance to the cell on its left.
    assert_eq!(dtw.one_to_one(&[1, 2, 4], &[0]), Ok(1 + 2 + 4));
    // One column: every cell adds its distance to the cell above.
    assert_eq!(dtw.one_to_one(&[0], &[1, 2, 4]), Ok(1 + 2 + 4));
}

#[test]
fn two_by_two_matrix_takes_the_least_neighbour() {
    let dtw = manhattan_dtw();
    // x = [0, 5], y = [1, 5]
    // row 0 (y = 1): 1, 1 + 4 = 5
    // row 1 (y = 5): 5 + 1 = 6, 0 + min(5, 6, 1) = 1
    assert_eq!(dtw.one_to_one(&[0, 5], &[1, 5]), Ok(1));
}

#[test]
fn both_orientations_agree_on_equal_lengths() {
    let dtw = manhattan_dtw();
    let x: &[i64] = &[1, 3, 9, 2, 1, 7];
    let y: &[i64] = &[2, 0, 0, 8, 7, 2];
    assert_eq!(dtw.one_to_one(x, y), dtw.one_to_one(y, x));
    assert_eq!(dtw.one_to_one(x, y), Ok(14));
}

#[test]
fn both_orientations_agree_on_unequal_lengths() {
    let dtw = manhattan_dtw();
    let x: &[i64] = &[1, 3, 9, 2, 1];
    let y: &[i64] = &[2, 0, 0, 8, 7, 2];
    assert_eq!(dtw.one_to_one(x, y), Ok(9));
    assert_eq!(dtw.one_to_one(y, x), Ok(9));
}

#[test]
fn a_sequence_is_at_distance_zero_from_itself() {
    let dtw = manhattan_dtw();
    let s: &[i64] = &[97, 1419, 245, 6331, 4276, 3154, 542, 7115];
    assert_eq!(dtw.one_to_one(s, s), Ok(0));
    assert_eq!(dtw.one_to_one(&[5], &[5]), Ok(0));
}

#[test]
fn repeated_values_of_different_lengths_are_at_distance_zero() {
    let dtw = manhattan_dtw();
    assert_eq!(dtw.one_to_one(&[314; 5], &[314; 10]), Ok(0));
}

#[test]
fn padding_both_with_one_element_never_raises_the_cost() {
    let dtw = manhattan_dtw();
    assert_eq!(dtw.one_to_one(&[0], &[0, 9]), Ok(9));
    // The appended nines match each other and the nine before them.
    assert_eq!(dtw.one_to_one(&[0, 9], &[0, 9, 9]), Ok(0));
    assert_eq!(dtw.one_to_one(&[2, 3, 1, 8], &[8, 7, 9, 2]), Ok(23));
    assert_eq!(dtw.one_to_one(&[2, 3, 1, 8, 4], &[8, 7, 9, 2, 4]), Ok(19));
}

#[test]
fn repeating_the_tails_never_lowers_the_cost() {
    let dtw = manhattan_dtw();
    assert_eq!(dtw.one_to_one(&[0], &[0, 9]), Ok(9));
    assert_eq!(dtw.one_to_one(&[0, 0], &[0, 9, 9]), Ok(18));
    assert_eq!(dtw.one_to_one(&[2, 3, 1, 8], &[8, 7, 9, 2]), Ok(23));
    assert_eq!(dtw.one_to_one(&[2, 3, 1, 8, 8], &[8, 7, 9, 2, 2]), Ok(29));
}

#[test]
fn padding_a_common_tail_keeps_the_cost() {
    let dtw = manhattan_dtw();
    assert_eq!(dtw.one_to_one(&[2, 3, 1, 4], &[8, 7, 9, 4]), Ok(18));
    assert_eq!(dtw.one_to_one(&[2, 3, 1, 4, 4], &[8, 7, 9, 4, 4]), Ok(18));
}

#[test]
fn a_pair_outside_the_metric_fails_the_alignment() {
    let dtw = narrow_dtw();
    assert_eq!(dtw.one_to_one(&[0, 300], &[0]), Err(MetricError::OutOfDomain));
    assert_eq!(dtw.one_to_one(&[0, 255], &[0]), Ok(255));
    let wide: DynamicTimeWarping<i64, u64, Euclidean> =
        DynamicTimeWarping::new(Euclidean { is_expensive: false });
    assert_eq!(wide.one_to_one(&[0], &[94_906_265]), Ok(94_906_265));
    assert_eq!(wide.one_to_one(&[0], &[94_906_266]), Err(MetricError::OutOfDomain));
}

#[test]
fn a_cost_beyond_the_distance_type_fails_the_alignment() {
    let dtw = narrow_dtw();
    assert_eq!(dtw.one_to_one(&[200, 200], &[0]), Err(MetricError::Overflow));
    assert_eq!(dtw.one_to_one(&[200, 55], &[0]), Ok(255));
    // A cell off the cheapest path overflows although the last cell would fit.
    assert_eq!(dtw.one_to_one(&[0, 200, 200, 0], &[0, 0]), Err(MetricError::Overflow));
}

#[test]
fn the_first_failure_of_the_sweep_is_reported() {
    let dtw = narrow_dtw();
    // Row 0: 200, then 200 + 200 overflows before the pair (300, 0) is met.
    assert_eq!(dtw.one_to_one(&[200, 200, 300], &[0]), Err(MetricError::Overflow));
    // Row 0: the pair (300, 0) is met first.
    assert_eq!(dtw.one_to_one(&[300, 200, 200], &[0]), Err(MetricError::OutOfDomain));
}

#[test]
fn metrics_measure_the_absolute_difference() {
    let manhattan = Manhattan { is_expensive: true };
    let euclidean = Euclidean { is_expensive: false };
    assert_eq!(PointwiseMetric::<i64, u64>::distance(&manhattan, &3, &10), Ok(7));
    assert_eq!(PointwiseMetric::<i64, u64>::distance(&manhattan, &10, &3), Ok(7));
    assert_eq!(
        PointwiseMetric::<i64, u64>::distance(&manhattan, &i64::MIN, &-1),
        Ok(i64::MAX as u64)
    );
    assert_eq!(
        PointwiseMetric::<i64, u64>::distance(&manhattan, &i64::MIN, &0),
        Err(MetricError::OutOfDomain)
    );
    assert_eq!(PointwiseMetric::<i64, u64>::distance(&euclidean, &-2, &5), Ok(7));
    assert_eq!(PointwiseMetric::<i16, u8>::distance(&euclidean, &-200, &55), Ok(255));
    assert_eq!(
        PointwiseMetric::<i16, u8>::distance(&euclidean, &-200, &56),
        Err(MetricError::OutOfDomain)
    );
    assert_eq!(PointwiseMetric::<i16, u8>::distance(&manhattan, &7, &7), Ok(0));
    assert_eq!(PointwiseMetric::<i16, u8>::name(&manhattan), "manhattan");
    assert!(PointwiseMetric::<i16, u8>::is_expensive(&manhattan));
    assert!(!PointwiseMetric::<i64, u64>::is_expensive(&euclidean));
}

#[test]
fn scalars_add_within_their_type_only() {
    assert_eq!(<u8 as Number>::zero(), 0);
    assert_eq!(Number::sum(200u8, 55u8), Some(255));
    assert_eq!(Number::sum(200u8, 56u8), None);
    assert_eq!(Number::sum(u64::MAX, 1u64), None);
    assert_eq!(Number::sum(i32::MIN, -1i32), None);
    assert_eq!(Number::sum(i32::MIN, 1i32), Some(i32::MIN + 1));
    assert_eq!(Number::sum(i64::MAX, 1i64), None);
    assert_eq!(Number::sum(-5i64, 5i64), Some(0));
    assert!(Number::less(1u16, 2u16));
    assert!(!Number::less(2u32, 2u32));
    assert!(Number::less(-1i32, 0i32));
}

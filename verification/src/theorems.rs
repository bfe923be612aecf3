//! What holds of the alignment distance for every input.

use crate::metric::{Euclidean, Manhattan, MetricError, PointwiseMetric};
use crate::metric_dtw::{
    alignment, cell_failure, cost, every_cell_fills, failure_before, final_cost, unit_cost,
};
use crate::number::Number;
use vstd::prelude::*;

verus! {

/// The metric never measures a negative distance.
pub open spec fn non_negative<T, U: Number, M: PointwiseMetric<T, U>>(m: M) -> bool {
    forall|a: T, b: T| #[trigger] m.spec_distance(a, b) is Ok ==> m.spec_distance(a, b)->Ok_0 >= 0
}

/// The metric measures the same distance, or fails alike, in both directions.
pub open spec fn symmetric<T, U: Number, M: PointwiseMetric<T, U>>(m: M) -> bool {
    forall|a: T, b: T| #[trigger] m.spec_distance(a, b) == m.spec_distance(b, a)
}

/// The metric puts every element at distance zero from itself.
pub open spec fn zero_on_equal<T, U: Number, M: PointwiseMetric<T, U>>(m: M) -> bool {
    forall|a: T| #[trigger] m.spec_distance(a, a) == Ok::<int, MetricError>(0)
}

/// Under a non-negative metric no accumulated cost is negative.
pub proof fn lemma_cost_non_negative<T, U: Number, M: PointwiseMetric<T, U>>(
    m: M,
    x: Seq<T>,
    y: Seq<T>,
    r: nat,
    c: nat,
)
    requires
        non_negative(m),
    ensures
        cost(m, x, y, r, c) >= 0,
    decreases r + c,
{
    assert(unit_cost(m, x, y, r, c) >= 0);
    if r == 0 && c == 0 {
    } else if r == 0 {
        lemma_cost_non_negative(m, x, y, r, (c - 1) as nat);
    } else if c == 0 {
        lemma_cost_non_negative(m, x, y, (r - 1) as nat, c);
    } else {
        lemma_cost_non_negative(m, x, y, (r - 1) as nat, c);
        lemma_cost_non_negative(m, x, y, r, (c - 1) as nat);
        lemma_cost_non_negative(m, x, y, (r - 1) as nat, (c - 1) as nat);
    }
}

/// Under a symmetric metric the cost matrix of `y` and `x` is the transpose
/// of that of `x` and `y`.
pub proof fn lemma_cost_transposes<T, U: Number, M: PointwiseMetric<T, U>>(
    m: M,
    x: Seq<T>,
    y: Seq<T>,
    r: nat,
    c: nat,
)
    requires
        symmetric(m),
    ensures
        cost(m, x, y, r, c) == cost(m, y, x, c, r),
    decreases r + c,
{
    assert(m.spec_distance(x[c as int], y[r as int]) == m.spec_distance(y[r as int], x[c as int]));
    assert(unit_cost(m, x, y, r, c) == unit_cost(m, y, x, c, r));
    if r == 0 && c == 0 {
    } else if r == 0 {
        lemma_cost_transposes(m, x, y, r, (c - 1) as nat);
    } else if c == 0 {
        lemma_cost_transposes(m, x, y, (r - 1) as nat, c);
    } else {
        lemma_cost_transposes(m, x, y, (r - 1) as nat, c);
        lemma_cost_transposes(m, x, y, r, (c - 1) as nat);
        lemma_cost_transposes(m, x, y, (r - 1) as nat, (c - 1) as nat);
    }
}

/// Under a non-negative metric that is zero on equal elements, the diagonal
/// of the cost matrix of a sequence against itself is zero.
pub proof fn lemma_diagonal_is_zero<T, U: Number, M: PointwiseMetric<T, U>>(
    m: M,
    s: Seq<T>,
    i: nat,
)
    requires
        non_negative(m),
        zero_on_equal(m),
    ensures
        cost(m, s, s, i, i) == 0,
    decreases i,
{
    assert(m.spec_distance(s[i as int], s[i as int]) == Ok::<int, MetricError>(0));
    assert(unit_cost(m, s, s, i, i) == 0);
    if i > 0 {
        lemma_diagonal_is_zero(m, s, (i - 1) as nat);
        lemma_cost_non_negative(m, s, s, (i - 1) as nat, i);
        lemma_cost_non_negative(m, s, s, i, (i - 1) as nat);
    }
}

/// Every cell that the sweep fills before it reaches cell `(r, c)` can be
/// filled.
pub open spec fn fills_before<T, U: Number, M: PointwiseMetric<T, U>>(
    m: M,
    x: Seq<T>,
    y: Seq<T>,
    r: nat,
    c: nat,
) -> bool {
    forall|i: nat, j: nat|
        (i < r && j < x.len()) || (i == r && j < c) ==> #[trigger] cell_failure(m, x, y, i, j)
            is None
}

/// The sweep meets no failure before a cell exactly when every earlier cell
/// can be filled.
pub proof fn lemma_no_failure_before<T, U: Number, M: PointwiseMetric<T, U>>(
    m: M,
    x: Seq<T>,
    y: Seq<T>,
    r: nat,
    c: nat,
)
    requires
        c <= x.len(),
    ensures
        failure_before(m, x, y, r, c) is None <==> fills_before(m, x, y, r, c),
    decreases r, c,
{
    if c > 0 {
        let before = (c - 1) as nat;
        lemma_no_failure_before(m, x, y, r, before);
        if fills_before(m, x, y, r, c) {
            assert(cell_failure(m, x, y, r, before) is None);
            assert(fills_before(m, x, y, r, before));
        }
        if fills_before(m, x, y, r, before) && cell_failure(m, x, y, r, before) is None {
            assert(fills_before(m, x, y, r, c));
        }
    } else if r > 0 {
        let above = (r - 1) as nat;
        lemma_no_failure_before(m, x, y, above, x.len());
        if fills_before(m, x, y, r, c) {
            assert(fills_before(m, x, y, above, x.len()));
        }
        if fills_before(m, x, y, above, x.len()) {
            assert(fills_before(m, x, y, r, c));
        }
    }
}

/// An alignment of two non-empty sequences yields a distance exactly when
/// every cell of the cost matrix can be filled, and the distance is then the
/// accumulated cost of the last cell.
pub proof fn lemma_alignment_succeeds<T, U: Number, M: PointwiseMetric<T, U>>(
    m: M,
    x: Seq<T>,
    y: Seq<T>,
)
    ensures
        alignment(m, x, y) is Ok <==> x.len() > 0 && y.len() > 0 && every_cell_fills(m, x, y),
        alignment(m, x, y) is Ok ==> alignment(m, x, y)->Ok_0 == final_cost(m, x, y),
{
    if x.len() > 0 && y.len() > 0 {
        lemma_no_failure_before(m, x, y, y.len(), 0);
        if fills_before(m, x, y, y.len(), 0) {
            assert(every_cell_fills(m, x, y));
        }
        if every_cell_fills(m, x, y) {
            assert(fills_before(m, x, y, y.len(), 0));
        }
    }
}

/// Swapping the two sequences leaves the alignment distance unchanged when
/// the metric is symmetric: either both orientations yield the same distance
/// or both fail.
pub proof fn theorem_symmetry<T, U: Number, M: PointwiseMetric<T, U>>(m: M, x: Seq<T>, y: Seq<T>)
    requires
        symmetric(m),
    ensures
        alignment(m, x, y) is Ok <==> alignment(m, y, x) is Ok,
        alignment(m, x, y) is Ok ==> alignment(m, x, y) == alignment(m, y, x),
{
    lemma_alignment_succeeds(m, x, y);
    lemma_alignment_succeeds(m, y, x);
    assert forall|r: nat, c: nat| r < y.len() && c < x.len() implies cell_failure(m, x, y, r, c)
        == #[trigger] cell_failure(m, y, x, c, r) by {
        lemma_cost_transposes(m, x, y, r, c);
        assert(m.spec_distance(x[c as int], y[r as int]) == m.spec_distance(
            y[r as int],
            x[c as int],
        ));
    }
    if every_cell_fills(m, x, y) {
        assert forall|r: nat, c: nat| r < x.len() && c < y.len() implies #[trigger] cell_failure(
            m,
            y,
            x,
            r,
            c,
        ) is None by {
            assert(cell_failure(m, x, y, c, r) is None);
        }
    }
    if every_cell_fills(m, y, x) {
        assert forall|r: nat, c: nat| r < y.len() && c < x.len() implies #[trigger] cell_failure(
            m,
            x,
            y,
            r,
            c,
        ) is None by {
            assert(cell_failure(m, y, x, c, r) is None);
        }
    }
    if x.len() > 0 && y.len() > 0 {
        lemma_cost_transposes(m, x, y, (y.len() - 1) as nat, (x.len() - 1) as nat);
    }
}

/// Under a non-negative metric that is zero on equal elements, a sequence
/// lies at distance zero from itself whenever its alignment with itself
/// yields a distance.
pub proof fn theorem_identity<T, U: Number, M: PointwiseMetric<T, U>>(m: M, s: Seq<T>)
    requires
        non_negative(m),
        zero_on_equal(m),
    ensures
        alignment(m, s, s) is Ok ==> alignment(m, s, s) == Ok::<int, MetricError>(0),
        s.len() > 0 && every_cell_fills(m, s, s) ==> alignment(m, s, s) == Ok::<int, MetricError>(
            0,
        ),
{
    lemma_alignment_succeeds(m, s, s);
    if s.len() > 0 {
        lemma_diagonal_is_zero(m, s, (s.len() - 1) as nat);
    }
}

/// Under a non-negative metric no alignment distance is negative.
pub proof fn theorem_non_negativity<T, U: Number, M: PointwiseMetric<T, U>>(
    m: M,
    x: Seq<T>,
    y: Seq<T>,
)
    requires
        non_negative(m),
    ensures
        alignment(m, x, y) is Ok ==> alignment(m, x, y)->Ok_0 >= 0,
{
    if x.len() > 0 && y.len() > 0 {
        lemma_cost_non_negative(m, x, y, (y.len() - 1) as nat, (x.len() - 1) as nat);
    }
}

/// The accumulated cost of a cell depends only on the elements up to its
/// column and its row.
pub proof fn lemma_cost_of_prefix<T, U: Number, M: PointwiseMetric<T, U>>(
    m: M,
    x: Seq<T>,
    y: Seq<T>,
    x2: Seq<T>,
    y2: Seq<T>,
    r: nat,
    c: nat,
)
    requires
        forall|j: int| 0 <= j <= c ==> x[j] == x2[j],
        forall|i: int| 0 <= i <= r ==> y[i] == y2[i],
    ensures
        cost(m, x, y, r, c) == cost(m, x2, y2, r, c),
    decreases r + c,
{
    assert(x[c as int] == x2[c as int]);
    assert(y[r as int] == y2[r as int]);
    if r == 0 && c == 0 {
    } else if r == 0 {
        lemma_cost_of_prefix(m, x, y, x2, y2, r, (c - 1) as nat);
    } else if c == 0 {
        lemma_cost_of_prefix(m, x, y, x2, y2, (r - 1) as nat, c);
    } else {
        lemma_cost_of_prefix(m, x, y, x2, y2, (r - 1) as nat, c);
        lemma_cost_of_prefix(m, x, y, x2, y2, r, (c - 1) as nat);
        lemma_cost_of_prefix(m, x, y, x2, y2, (r - 1) as nat, (c - 1) as nat);
    }
}

/// Appending one and the same element to both sequences never raises the
/// final cost when the metric puts that element at distance zero from
/// itself: the two new elements can be matched with each other for free.
pub proof fn theorem_padding_never_raises<T, U: Number, M: PointwiseMetric<T, U>>(
    m: M,
    x: Seq<T>,
    y: Seq<T>,
    e: T,
)
    requires
        x.len() > 0,
        y.len() > 0,
        m.spec_distance(e, e) == Ok::<int, MetricError>(0),
    ensures
        final_cost(m, x.push(e), y.push(e)) <= final_cost(m, x, y),
        alignment(m, x.push(e), y.push(e)) is Ok && alignment(m, x, y) is Ok ==> alignment(
            m,
            x.push(e),
            y.push(e),
        )->Ok_0 <= alignment(m, x, y)->Ok_0,
{
    let x2 = x.push(e);
    let y2 = y.push(e);
    assert(x2[x.len() as int] == e);
    assert(y2[y.len() as int] == e);
    assert(unit_cost(m, x2, y2, y.len(), x.len()) == 0);
    lemma_cost_of_prefix(m, x, y, x2, y2, (y.len() - 1) as nat, (x.len() - 1) as nat);
}

/// The position in a sequence of `len` elements that stands for position `i`
/// of the sequence with its last element repeated once more.
pub open spec fn clamp(i: nat, len: nat) -> nat {
    if i < len {
        i
    } else {
        (len - 1) as nat
    }
}

/// With the last element of each sequence repeated once more, and under a
/// non-negative metric, no cell of the larger cost matrix is cheaper than
/// the cell of the smaller matrix that it stands over.
pub proof fn lemma_repeated_tail_cell<T, U: Number, M: PointwiseMetric<T, U>>(
    m: M,
    x: Seq<T>,
    y: Seq<T>,
    r: nat,
    c: nat,
)
    requires
        non_negative(m),
        x.len() > 0,
        y.len() > 0,
        r <= y.len(),
        c <= x.len(),
    ensures
        cost(m, x.push(x.last()), y.push(y.last()), r, c) >= cost(
            m,
            x,
            y,
            clamp(r, y.len()),
            clamp(c, x.len()),
        ),
    decreases r + c,
{
    let x2 = x.push(x.last());
    let y2 = y.push(y.last());
    let rr = clamp(r, y.len());
    let cc = clamp(c, x.len());
    assert(x2[c as int] == x[cc as int]);
    assert(y2[r as int] == y[rr as int]);
    assert(unit_cost(m, x2, y2, r, c) == unit_cost(m, x, y, rr, cc));
    assert(unit_cost(m, x, y, rr, cc) >= 0);
    if r > 0 {
        lemma_repeated_tail_cell(m, x, y, (r - 1) as nat, c);
    }
    if c > 0 {
        lemma_repeated_tail_cell(m, x, y, r, (c - 1) as nat);
    }
    if r > 0 && c > 0 {
        lemma_repeated_tail_cell(m, x, y, (r - 1) as nat, (c - 1) as nat);
    }
}

/// Repeating the last element of each sequence once more never lowers the
/// final cost under a non-negative metric.
pub proof fn theorem_repeated_tail_never_lowers<T, U: Number, M: PointwiseMetric<T, U>>(
    m: M,
    x: Seq<T>,
    y: Seq<T>,
)
    requires
        non_negative(m),
        x.len() > 0,
        y.len() > 0,
    ensures
        final_cost(m, x.push(x.last()), y.push(y.last())) >= final_cost(m, x, y),
        alignment(m, x.push(x.last()), y.push(y.last())) is Ok && alignment(m, x, y) is Ok
            ==> alignment(m, x.push(x.last()), y.push(y.last()))->Ok_0 >= alignment(
            m,
            x,
            y,
        )->Ok_0,
{
    lemma_repeated_tail_cell(m, x, y, y.len(), x.len());
}

/// Appending to both sequences one more copy of the element on which both
/// end leaves the final cost unchanged, under a non-negative metric that
/// puts that element at distance zero from itself.
pub proof fn theorem_padding_keeps_cost<T, U: Number, M: PointwiseMetric<T, U>>(
    m: M,
    x: Seq<T>,
    y: Seq<T>,
    e: T,
)
    requires
        non_negative(m),
        m.spec_distance(e, e) == Ok::<int, MetricError>(0),
        x.len() > 0,
        y.len() > 0,
        x.last() == e,
        y.last() == e,
    ensures
        final_cost(m, x.push(e), y.push(e)) == final_cost(m, x, y),
        alignment(m, x.push(e), y.push(e)) is Ok && alignment(m, x, y) is Ok ==> alignment(
            m,
            x.push(e),
            y.push(e),
        ) == alignment(m, x, y),
{
    theorem_padding_never_raises(m, x, y, e);
    theorem_repeated_tail_never_lowers(m, x, y);
}

/// The Manhattan metric is non-negative, symmetric and zero on equal
/// elements, on wide and on narrow integers.
pub proof fn lemma_manhattan_is_regular(m: Manhattan)
    ensures
        non_negative::<i64, u64, Manhattan>(m),
        symmetric::<i64, u64, Manhattan>(m),
        zero_on_equal::<i64, u64, Manhattan>(m),
        non_negative::<i16, u8, Manhattan>(m),
        symmetric::<i16, u8, Manhattan>(m),
        zero_on_equal::<i16, u8, Manhattan>(m),
{
}

/// The Euclidean metric is non-negative, symmetric and zero on equal
/// elements, on wide and on narrow integers.
pub proof fn lemma_euclidean_is_regular(m: Euclidean)
    ensures
        non_negative::<i64, u64, Euclidean>(m),
        symmetric::<i64, u64, Euclidean>(m),
        zero_on_equal::<i64, u64, Euclidean>(m),
        non_negative::<i16, u8, Euclidean>(m),
        symmetric::<i16, u8, Euclidean>(m),
        zero_on_equal::<i16, u8, Euclidean>(m),
{
}

} // verus!

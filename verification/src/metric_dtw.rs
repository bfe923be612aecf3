//! Dynamic time warping: the cost of the cheapest elastic alignment of two
//! sequences under a pointwise metric.

use crate::metric::{outcome, MetricError, PointwiseMetric};
use crate::number::Number;
use crate::theorems::{lemma_alignment_succeeds, non_negative, theorem_non_negativity};
use std::marker::PhantomData;
use vstd::prelude::*;

verus! {

/// The smaller of two integers.
pub open spec fn min2(a: int, b: int) -> int {
    if a < b {
        a
    } else {
        b
    }
}

/// The unit cost of cell `(r, c)`: the distance between `x[c]` and `y[r]`,
/// read as zero where the metric fails on that pair.
pub open spec fn unit_cost<T, U: Number, M: PointwiseMetric<T, U>>(
    m: M,
    x: Seq<T>,
    y: Seq<T>,
    r: nat,
    c: nat,
) -> int {
    match m.spec_distance(x[c as int], y[r as int]) {
        Ok(d) => d,
        Err(_) => 0,
    }
}

/// The accumulated cost of cell `(r, c)` of the cost matrix, rows running
/// over `y` and columns over `x`: the unit cost of the cell plus the least
/// accumulated cost among the neighbours above, to the left and diagonally
/// above-left that exist. The corner cell has no neighbour and holds its
/// unit cost alone.
pub open spec fn cost<T, U: Number, M: PointwiseMetric<T, U>>(
    m: M,
    x: Seq<T>,
    y: Seq<T>,
    r: nat,
    c: nat,
) -> int
    decreases r + c,
{
    unit_cost(m, x, y, r, c) + if r == 0 && c == 0 {
        0
    } else if r == 0 {
        cost(m, x, y, r, (c - 1) as nat)
    } else if c == 0 {
        cost(m, x, y, (r - 1) as nat, c)
    } else {
        min2(
            min2(cost(m, x, y, (r - 1) as nat, c), cost(m, x, y, r, (c - 1) as nat)),
            cost(m, x, y, (r - 1) as nat, (c - 1) as nat),
        )
    }
}

/// Why cell `(r, c)` cannot be filled, if it cannot: the metric fails on its
/// pair of elements, or its accumulated cost does not fit `U`.
pub open spec fn cell_failure<T, U: Number, M: PointwiseMetric<T, U>>(
    m: M,
    x: Seq<T>,
    y: Seq<T>,
    r: nat,
    c: nat,
) -> Option<MetricError> {
    match m.spec_distance(x[c as int], y[r as int]) {
        Err(e) => Some(e),
        Ok(_) => if U::fits(cost(m, x, y, r, c)) {
            None
        } else {
            Some(MetricError::Overflow)
        },
    }
}

/// The first failure among the cells that a row-by-row sweep fills before it
/// reaches cell `(r, c)`, if any of them fails.
pub open spec fn failure_before<T, U: Number, M: PointwiseMetric<T, U>>(
    m: M,
    x: Seq<T>,
    y: Seq<T>,
    r: nat,
    c: nat,
) -> Option<MetricError>
    decreases r, c,
{
    if c > 0 {
        match failure_before(m, x, y, r, (c - 1) as nat) {
            Some(e) => Some(e),
            None => cell_failure(m, x, y, r, (c - 1) as nat),
        }
    } else if r > 0 {
        failure_before(m, x, y, (r - 1) as nat, x.len())
    } else {
        None
    }
}

/// The alignment distance between `x` and `y` under `m`: the accumulated cost
/// of the last cell of the cost matrix, unless a sequence is empty or a cell
/// fails, in which case the first failure of the sweep is the result.
pub open spec fn alignment<T, U: Number, M: PointwiseMetric<T, U>>(
    m: M,
    x: Seq<T>,
    y: Seq<T>,
) -> Result<int, MetricError> {
    if x.len() == 0 || y.len() == 0 {
        Err(MetricError::EmptyInput)
    } else {
        match failure_before(m, x, y, y.len(), 0) {
            Some(e) => Err(e),
            None => Ok(final_cost(m, x, y)),
        }
    }
}

/// The accumulated cost of the last cell of the cost matrix of two non-empty
/// sequences.
pub open spec fn final_cost<T, U: Number, M: PointwiseMetric<T, U>>(
    m: M,
    x: Seq<T>,
    y: Seq<T>,
) -> int {
    cost(m, x, y, (y.len() - 1) as nat, (x.len() - 1) as nat)
}

/// Every cell of the cost matrix of `x` and `y` can be filled.
pub open spec fn every_cell_fills<T, U: Number, M: PointwiseMetric<T, U>>(
    m: M,
    x: Seq<T>,
    y: Seq<T>,
) -> bool {
    forall|r: nat, c: nat|
        r < y.len() && c < x.len() ==> #[trigger] cell_failure(m, x, y, r, c) is None
}

/// A failure found before one cell is still the first failure before every
/// later cell of the sweep.
proof fn lemma_failure_persists<T, U: Number, M: PointwiseMetric<T, U>>(
    m: M,
    x: Seq<T>,
    y: Seq<T>,
    r: nat,
    c: nat,
    r2: nat,
    c2: nat,
)
    requires
        failure_before(m, x, y, r, c) is Some,
        c <= x.len(),
        r < r2 || (r == r2 && c <= c2),
    ensures
        failure_before(m, x, y, r2, c2) == failure_before(m, x, y, r, c),
    decreases r2, c2,
{
    if r == r2 && c == c2 {
    } else if c2 > 0 {
        lemma_failure_persists(m, x, y, r, c, r2, (c2 - 1) as nat);
    } else {
        lemma_failure_persists(m, x, y, r, c, (r2 - 1) as nat, x.len());
    }
}

/// Dynamic time warping over a pointwise metric.
pub struct DynamicTimeWarping<T, U: Number, M: PointwiseMetric<T, U>> {
    child_metric: M,
    marker: PhantomData<(T, U)>,
}

impl<T, U: Number, M: PointwiseMetric<T, U>> DynamicTimeWarping<T, U, M> {
    /// The pointwise metric that prices a single pair of elements.
    pub closed spec fn metric(&self) -> M {
        self.child_metric
    }

    /// The pointwise metric that prices a single pair of elements.
    pub fn child_metric(&self) -> (child_metric: &M)
        ensures
            *child_metric == self.metric(),
    {
        &self.child_metric
    }

    /// An engine that aligns sequences under `child_metric`.
    pub fn new(child_metric: M) -> (engine: Self)
        ensures
            engine.metric() == child_metric,
    {
        Self { child_metric, marker: PhantomData }
    }

    /// The name under which the engine is registered.
    pub fn name(&self) -> (s: String)
        ensures
            s@ == "dtw"@,
    {
        "dtw".to_owned()
    }

    /// An alignment fills a table with one cell per pair of elements, so the
    /// engine always counts as expensive.
    pub fn is_expensive(&self) -> (e: bool)
        ensures
            e,
    {
        true
    }

    /// The least accumulated cost among the neighbours of cell `(r, c)` that
    /// exist, or zero for the corner cell. `prev` is the row above and `cur`
    /// the part of the current row that is already filled.
    fn min_neighbor(prev: &Vec<U>, cur: &Vec<U>, r: usize, c: usize) -> (least: U)
        requires
            cur.len() == c,
            r > 0 ==> prev.len() > c,
        ensures
            r == 0 && c == 0 ==> least.value() == 0,
            r == 0 && c > 0 ==> least.value() == cur[c - 1].value(),
            r > 0 && c == 0 ==> least.value() == prev[0].value(),
            r > 0 && c > 0 ==> least.value() == min2(
                min2(prev[c as int].value(), cur[c - 1].value()),
                prev[c - 1].value(),
            ),
    {
        if r == 0 && c == 0 {
            U::zero()
        } else if r == 0 {
            cur[c - 1]
        } else if c == 0 {
            prev[0]
        } else {
            let top = prev[c];
            let left = cur[c - 1];
            let diagonal = prev[c - 1];
            let side = if top.less(left) {
                top
            } else {
                left
            };
            if side.less(diagonal) {
                side
            } else {
                diagonal
            }
        }
    }

    /// The alignment distance between `x` and `y`.
    ///
    /// The cost matrix is filled row by row, one row per element of `y` and
    /// one column per element of `x`, keeping only the row above the one
    /// being filled. The first cell that fails ends the computation with its
    /// failure.
    pub fn one_to_one(&self, x: &[T], y: &[T]) -> (res: Result<U, MetricError>)
        ensures
            outcome(res) == alignment(self.metric(), x@, y@),
            x@.len() == 0 || y@.len() == 0 ==> res == Err::<U, MetricError>(MetricError::EmptyInput),
            res is Ok <==> x@.len() > 0 && y@.len() > 0 && every_cell_fills(self.metric(), x@, y@),
            res is Ok ==> res->Ok_0.value() == final_cost(self.metric(), x@, y@),
            res is Ok && non_negative(self.metric()) ==> res->Ok_0.value() >= 0,
    {
        let ghost m = self.child_metric;
        proof {
            lemma_alignment_succeeds(m, x@, y@);
            if non_negative(m) {
                theorem_non_negativity(m, x@, y@);
            }
        }
        if x.len() == 0 || y.len() == 0 {
            return Err(MetricError::EmptyInput);
        }
        let mut prev: Vec<U> = Vec::new();
        let mut r: usize = 0;
        while r < y.len()
            invariant
                m == self.child_metric,
                0 < x.len(),
                r <= y.len(),
                failure_before(m, x@, y@, r as nat, 0) is None,
                r > 0 ==> prev.len() == x.len(),
                forall|j: int|
                    0 <= j < x.len() && r > 0 ==> (#[trigger] prev[j]).value() == cost(
                        m,
                        x@,
                        y@,
                        (r - 1) as nat,
                        j as nat,
                    ),
            decreases y.len() - r,
        {
            let mut cur: Vec<U> = Vec::new();
            let mut c: usize = 0;
            while c < x.len()
                invariant
                    m == self.child_metric,
                    r < y.len(),
                    c <= x.len(),
                    cur.len() == c,
                    failure_before(m, x@, y@, r as nat, c as nat) is None,
                    r > 0 ==> prev.len() == x.len(),
                    forall|j: int|
                        0 <= j < x.len() && r > 0 ==> (#[trigger] prev[j]).value() == cost(
                            m,
                            x@,
                            y@,
                            (r - 1) as nat,
                            j as nat,
                        ),
                    forall|j: int|
                        0 <= j < c ==> (#[trigger] cur[j]).value() == cost(
                            m,
                            x@,
                            y@,
                            r as nat,
                            j as nat,
                        ),
                decreases x.len() - c,
            {
                let cell = match self.child_metric.distance(&x[c], &y[r]) {
                    Ok(dist) => dist.sum(Self::min_neighbor(&prev, &cur, r, c)),
                    Err(e) => {
                        proof {
                            lemma_failure_persists(
                                m,
                                x@,
                                y@,
                                r as nat,
                                (c + 1) as nat,
                                y.len() as nat,
                                0,
                            );
                        }
                        return Err(e);
                    },
                };
                match cell {
                    Some(total) => {
                        cur.push(total);
                    },
                    None => {
                        proof {
                            lemma_failure_persists(
                                m,
                                x@,
                                y@,
                                r as nat,
                                (c + 1) as nat,
                                y.len() as nat,
                                0,
                            );
                        }
                        return Err(MetricError::Overflow);
                    },
                }
                c += 1;
            }
            prev = cur;
            r += 1;
        }
        Ok(prev[x.len() - 1])
    }
}

} // verus!

//! Warping paths: the alignments among which the engine finds the cheapest.

use crate::metric::PointwiseMetric;
use crate::metric_dtw::{cost, unit_cost};
use crate::number::Number;
use vstd::prelude::*;

verus! {

/// A cell of the cost matrix: its row and its column.
pub type Cell = (nat, nat);

/// A path may go on from a cell to the cell below it, to the cell on its
/// right, or to the cell diagonally below on the right.
pub open spec fn is_step(from: Cell, to: Cell) -> bool {
    ||| to.0 == from.0 + 1 && to.1 == from.1
    ||| to.0 == from.0 && to.1 == from.1 + 1
    ||| to.0 == from.0 + 1 && to.1 == from.1 + 1
}

/// A warping path to cell `(r, c)`: it starts in the corner cell, goes on by
/// steps and ends in `(r, c)`.
pub open spec fn is_warping_path(path: Seq<Cell>, r: nat, c: nat) -> bool {
    &&& path.len() > 0
    &&& path[0] == (0nat, 0nat)
    &&& path.last() == (r, c)
    &&& forall|i: int| 0 <= i < path.len() - 1 ==> is_step(#[trigger] path[i], path[i + 1])
}

/// The cost of a path: the sum of the unit costs of its cells.
pub open spec fn path_cost<T, U: Number, M: PointwiseMetric<T, U>>(
    m: M,
    x: Seq<T>,
    y: Seq<T>,
    path: Seq<Cell>,
) -> int
    decreases path.len(),
{
    if path.len() == 0 {
        0
    } else {
        path_cost(m, x, y, path.drop_last()) + unit_cost(m, x, y, path.last().0, path.last().1)
    }
}

/// A cheapest warping path to cell `(r, c)`: a cheapest path to the
/// cheapest neighbour, and then the cell itself.
pub open spec fn cheapest_path<T, U: Number, M: PointwiseMetric<T, U>>(
    m: M,
    x: Seq<T>,
    y: Seq<T>,
    r: nat,
    c: nat,
) -> Seq<Cell>
    decreases r + c,
{
    if r == 0 && c == 0 {
        seq![(r, c)]
    } else if r == 0 {
        cheapest_path(m, x, y, r, (c - 1) as nat).push((r, c))
    } else if c == 0 {
        cheapest_path(m, x, y, (r - 1) as nat, c).push((r, c))
    } else {
        let top = cost(m, x, y, (r - 1) as nat, c);
        let left = cost(m, x, y, r, (c - 1) as nat);
        let diagonal = cost(m, x, y, (r - 1) as nat, (c - 1) as nat);
        if top <= left && top <= diagonal {
            cheapest_path(m, x, y, (r - 1) as nat, c).push((r, c))
        } else if left <= diagonal {
            cheapest_path(m, x, y, r, (c - 1) as nat).push((r, c))
        } else {
            cheapest_path(m, x, y, (r - 1) as nat, (c - 1) as nat).push((r, c))
        }
    }
}

/// No warping path to a cell costs less than the accumulated cost of the
/// cell.
pub proof fn theorem_no_path_is_cheaper<T, U: Number, M: PointwiseMetric<T, U>>(
    m: M,
    x: Seq<T>,
    y: Seq<T>,
    path: Seq<Cell>,
    r: nat,
    c: nat,
)
    requires
        is_warping_path(path, r, c),
    ensures
        path_cost(m, x, y, path) >= cost(m, x, y, r, c),
    decreases path.len(),
{
    let before = path.drop_last();
    if path.len() == 1 {
        assert(path_cost(m, x, y, before) == 0);
    } else {
        let from = path[path.len() - 2];
        assert(is_step(from, path[path.len() - 2 + 1]));
        assert(before.last() == from);
        assert(before[0] == path[0]);
        assert forall|i: int| 0 <= i < before.len() - 1 implies is_step(
            #[trigger] before[i],
            before[i + 1],
        ) by {
            assert(is_step(path[i], path[i + 1]));
        }
        theorem_no_path_is_cheaper(m, x, y, before, from.0, from.1);
    }
}

/// The cheapest path to a cell is a warping path to it, and its cost is the
/// accumulated cost of the cell.
pub proof fn theorem_cheapest_path<T, U: Number, M: PointwiseMetric<T, U>>(
    m: M,
    x: Seq<T>,
    y: Seq<T>,
    r: nat,
    c: nat,
)
    ensures
        is_warping_path(cheapest_path(m, x, y, r, c), r, c),
        path_cost(m, x, y, cheapest_path(m, x, y, r, c)) == cost(m, x, y, r, c),
    decreases r + c,
{
    let path = cheapest_path(m, x, y, r, c);
    if r == 0 && c == 0 {
        assert(path.drop_last() =~= Seq::<Cell>::empty());
        assert(path_cost(m, x, y, path.drop_last()) == 0);
    } else {
        let from: Cell = if r == 0 {
            (r, (c - 1) as nat)
        } else if c == 0 {
            ((r - 1) as nat, c)
        } else {
            let top = cost(m, x, y, (r - 1) as nat, c);
            let left = cost(m, x, y, r, (c - 1) as nat);
            let diagonal = cost(m, x, y, (r - 1) as nat, (c - 1) as nat);
            if top <= left && top <= diagonal {
                ((r - 1) as nat, c)
            } else if left <= diagonal {
                (r, (c - 1) as nat)
            } else {
                ((r - 1) as nat, (c - 1) as nat)
            }
        };
        let before = cheapest_path(m, x, y, from.0, from.1);
        theorem_cheapest_path(m, x, y, from.0, from.1);
        assert(path == before.push((r, c)));
        assert(path.drop_last() =~= before);
        assert(is_step(from, (r, c)));
        assert forall|i: int| 0 <= i < path.len() - 1 implies is_step(
            #[trigger] path[i],
            path[i + 1],
        ) by {
            if i < before.len() - 1 {
                assert(is_step(before[i], before[i + 1]));
            }
        }
    }
}

} // verus!

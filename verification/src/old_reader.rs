//! The plan by which rows are drawn from a capture file that holds one
//! table per coordinate.

use crate::reader::{by_number, sort_rows, strictly_ascending, SEED};
use rand::seq::SliceRandom;
use rand::SeedableRng;
use rand_chacha::ChaCha8Rng;
use vstd::prelude::*;
use vstd::relations::{sorted_by, total_ordering};
use vstd::seq_lib::lemma_sorted_unique;

verus! {

/// The positions that `rand` picks when it draws `amount` items out of a
/// slice of `length` items with a ChaCha8 generator seeded by `seed`, in the
/// order in which it hands them out.
pub uninterp spec fn chosen_positions(seed: u64, length: usize, amount: usize) -> Seq<usize>;

/// `picked` holds the items of `pool` at the given positions, which are
/// different positions of `pool`.
pub open spec fn picked_at(pool: Seq<usize>, positions: Seq<usize>, picked: Seq<usize>) -> bool {
    &&& positions.len() == picked.len()
    &&& positions.no_duplicates()
    &&& forall|i: int|
        0 <= i < positions.len() ==> (#[trigger] positions[i]) < pool.len() && picked[i]
            == pool[positions[i] as int]
}

/// Calls `rand`'s `SliceRandom::choose_multiple` on `pool`, with a
/// `ChaCha8Rng` made by `SeedableRng::seed_from_u64`, and copies out the
/// items it yields. The method draws `min(amount, pool.len())` different
/// positions of the slice and yields the items at them; the generator is a
/// function of its seed, and for at most `u32::MAX` items the positions are
/// drawn as 32-bit numbers on every platform, so the positions are a function
/// of the seed and the two counts.
#[verifier::external_body]
fn choose_from(pool: &Vec<usize>, seed: u64, amount: usize) -> (picked: Vec<usize>)
    requires
        amount <= pool@.len() <= u32::MAX,
    ensures
        picked@.len() == amount,
        picked_at(pool@, chosen_positions(seed, pool@.len() as usize, amount), picked@),
{
    pool.choose_multiple(&mut ChaCha8Rng::seed_from_u64(seed), amount).cloned().collect()
}

/// The rows kept of a table of `rows` rows when `number_samples` are asked
/// for: what the seeded draw picks, or every row if more is asked for than
/// the table holds, in ascending order.
pub open spec fn processed_rows(rows: usize, number_samples: usize) -> Seq<usize> {
    chosen_positions(
        SEED,
        rows,
        if number_samples > rows {
            rows
        } else {
            number_samples
        },
    ).sort_by(by_number())
}

/// Draws the rows to keep of each of the three tables of a file, in
/// ascending order. `rows` is the number of rows of the tables.
pub fn get_samples_processed(rows: usize, number_samples: usize) -> (idx: Vec<usize>)
    requires
        0 < rows <= i32::MAX,
        number_samples > 0,
    ensures
        idx@ == processed_rows(rows, number_samples),
        strictly_ascending(idx@),
        idx@.len() == if number_samples > rows {
            rows
        } else {
            number_samples
        },
        forall|i: int| 0 <= i < idx@.len() ==> idx@[i] < rows,
{
    let sample_test = if number_samples > rows {
        rows
    } else {
        number_samples
    };
    let mut pool: Vec<usize> = Vec::new();
    let mut row: usize = 0;
    while row < rows
        invariant
            row <= rows,
            pool@.len() == row,
            forall|i: int| 0 <= i < row ==> pool@[i] == i,
        decreases rows - row,
    {
        pool.push(row);
        row += 1;
    }
    let mut idx = choose_from(&pool, SEED, sample_test);
    let ghost drawn = idx@;
    proof {
        assert(drawn =~= chosen_positions(SEED, rows, sample_test));
    }
    sort_rows(&mut idx);
    proof {
        drawn.lemma_multiset_has_no_duplicates();
        idx@.lemma_multiset_has_no_duplicates_conv();
        drawn.to_multiset_ensures();
        idx@.to_multiset_ensures();
        assert forall|i: int| 0 <= i < idx@.len() implies idx@[i] < rows by {
            assert(idx@.to_multiset().contains(idx@[i]));
            assert(drawn.contains(idx@[i]));
        }
        assert(total_ordering(by_number()));
        assert(sorted_by(idx@, by_number()));
        drawn.lemma_sort_by_ensures(by_number());
        lemma_sorted_unique(idx@, drawn.sort_by(by_number()), by_number());
    }
    idx
}

} // verus!

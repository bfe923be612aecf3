//! Pointwise metrics: the unit cost between two single elements.

use crate::number::Number;
use vstd::prelude::*;

verus! {

/// Why a distance could not be computed.
#[derive(Debug, Clone, Copy, PartialEq, Eq, Structural)]
pub enum MetricError {
    /// One of the two sequences held no element.
    EmptyInput,
    /// A pair of elements lies outside the domain of the pointwise metric.
    OutOfDomain,
    /// An accumulated cost does not fit the distance type.
    Overflow,
}

/// What a computation yields, with a distance read as the integer it stands
/// for.
pub open spec fn outcome<U: Number>(r: Result<U, MetricError>) -> Result<int, MetricError> {
    match r {
        Ok(d) => Ok(d.value()),
        Err(e) => Err(e),
    }
}

/// A distance between two single elements of type `T`, measured in `U`.
///
/// A metric is a function of its two arguments: `spec_distance` says, for
/// every pair, which distance or which failure `distance` returns.
pub trait PointwiseMetric<T, U: Number> {
    /// The distance between `a` and `b`, or the failure on that pair.
    spec fn spec_distance(&self, a: T, b: T) -> Result<int, MetricError>;

    /// The name under which the metric is registered.
    spec fn spec_name(&self) -> Seq<char>;

    /// Whether one evaluation of the metric is costly.
    spec fn spec_is_expensive(&self) -> bool;

    /// Measures the distance between `a` and `b`.
    fn distance(&self, a: &T, b: &T) -> (d: Result<U, MetricError>)
        ensures
            outcome(d) == self.spec_distance(*a, *b),
    ;

    /// The name under which the metric is registered.
    fn name(&self) -> (s: String)
        ensures
            s@ == self.spec_name(),
    ;

    /// Whether one evaluation of the metric is costly.
    fn is_expensive(&self) -> (e: bool)
        ensures
            e == self.spec_is_expensive(),
    ;
}

/// The absolute difference of two integers.
pub open spec fn abs_diff(a: int, b: int) -> int {
    if a > b {
        a - b
    } else {
        b - a
    }
}

/// The largest gap between two elements that the Manhattan metric measures:
/// beyond it the gap leaves `i64`, in which the metric subtracts.
pub const MANHATTAN_REACH: u64 = 0x7fff_ffff_ffff_ffff;

/// The largest gap between two elements that the Euclidean metric measures:
/// up to it the square of the gap is a whole number that a double-precision
/// float holds exactly.
pub const EUCLIDEAN_REACH: u64 = 94_906_265;

/// The largest distance that fits `u8`.
pub const NARROW_REACH: u64 = 255;

/// Calls `abd_clam::distances::lp_norms::manhattan` on two one-element
/// slices. That function sums `|a - b|` over the paired elements in `i64` and
/// converts the sum to `u64`; within the stated gap the subtraction stays in
/// `i64` and the result is the absolute difference.
#[verifier::external_body]
fn clam_manhattan(a: i64, b: i64) -> (d: u64)
    requires
        abs_diff(a as int, b as int) <= MANHATTAN_REACH,
    ensures
        d as int == abs_diff(a as int, b as int),
{
    abd_clam::distances::lp_norms::manhattan::<i64, u64>(&[a], &[b])
}

/// Calls `abd_clam::distances::lp_norms::euclidean` on two one-element
/// slices. That function sums `(a - b) * (a - b)` in `i64`, takes the square
/// root of the sum as a double-precision float and converts the root to
/// `u64` by truncation; within the stated gap the float holds the square
/// exactly, the root is exact, and the result is the absolute difference.
#[verifier::external_body]
fn clam_euclidean(a: i64, b: i64) -> (d: u64)
    requires
        abs_diff(a as int, b as int) <= EUCLIDEAN_REACH,
    ensures
        d as int == abs_diff(a as int, b as int),
{
    abd_clam::distances::lp_norms::euclidean::<i64, u64>(&[a], &[b])
}

/// Whether two elements lie at most `reach` apart.
fn within(a: i64, b: i64, reach: u64) -> (w: bool)
    ensures
        w == (abs_diff(a as int, b as int) <= reach),
{
    let gap: i128 = if a > b {
        a as i128 - b as i128
    } else {
        b as i128 - a as i128
    };
    gap <= reach as i128
}

/// The Manhattan (L1) metric on single integers.
pub struct Manhattan {
    pub is_expensive: bool,
}

/// The Euclidean (L2) metric on single integers.
pub struct Euclidean {
    pub is_expensive: bool,
}

impl PointwiseMetric<i64, u64> for Manhattan {
    open spec fn spec_distance(&self, a: i64, b: i64) -> Result<int, MetricError> {
        if abs_diff(a as int, b as int) <= MANHATTAN_REACH {
            Ok(abs_diff(a as int, b as int))
        } else {
            Err(MetricError::OutOfDomain)
        }
    }

    open spec fn spec_name(&self) -> Seq<char> {
        "manhattan"@
    }

    open spec fn spec_is_expensive(&self) -> bool {
        self.is_expensive
    }

    fn distance(&self, a: &i64, b: &i64) -> (d: Result<u64, MetricError>) {
        if within(*a, *b, MANHATTAN_REACH) {
            Ok(clam_manhattan(*a, *b))
        } else {
            Err(MetricError::OutOfDomain)
        }
    }

    fn name(&self) -> (s: String) {
        "manhattan".to_owned()
    }

    fn is_expensive(&self) -> (e: bool) {
        self.is_expensive
    }
}

impl PointwiseMetric<i64, u64> for Euclidean {
    open spec fn spec_distance(&self, a: i64, b: i64) -> Result<int, MetricError> {
        if abs_diff(a as int, b as int) <= EUCLIDEAN_REACH {
            Ok(abs_diff(a as int, b as int))
        } else {
            Err(MetricError::OutOfDomain)
        }
    }

    open spec fn spec_name(&self) -> Seq<char> {
        "euclidean"@
    }

    open spec fn spec_is_expensive(&self) -> bool {
        self.is_expensive
    }

    fn distance(&self, a: &i64, b: &i64) -> (d: Result<u64, MetricError>) {
        if within(*a, *b, EUCLIDEAN_REACH) {
            Ok(clam_euclidean(*a, *b))
        } else {
            Err(MetricError::OutOfDomain)
        }
    }

    fn name(&self) -> (s: String) {
        "euclidean".to_owned()
    }

    fn is_expensive(&self) -> (e: bool) {
        self.is_expensive
    }
}

impl PointwiseMetric<i16, u8> for Manhattan {
    open spec fn spec_distance(&self, a: i16, b: i16) -> Result<int, MetricError> {
        if abs_diff(a as int, b as int) <= NARROW_REACH {
            Ok(abs_diff(a as int, b as int))
        } else {
            Err(MetricError::OutOfDomain)
        }
    }

    open spec fn spec_name(&self) -> Seq<char> {
        "manhattan"@
    }

    open spec fn spec_is_expensive(&self) -> bool {
        self.is_expensive
    }

    fn distance(&self, a: &i16, b: &i16) -> (d: Result<u8, MetricError>) {
        if within(*a as i64, *b as i64, NARROW_REACH) {
            Ok(clam_manhattan(*a as i64, *b as i64) as u8)
        } else {
            Err(MetricError::OutOfDomain)
        }
    }

    fn name(&self) -> (s: String) {
        "manhattan".to_owned()
    }

    fn is_expensive(&self) -> (e: bool) {
        self.is_expensive
    }
}

impl PointwiseMetric<i16, u8> for Euclidean {
    open spec fn spec_distance(&self, a: i16, b: i16) -> Result<int, MetricError> {
        if abs_diff(a as int, b as int) <= NARROW_REACH {
            Ok(abs_diff(a as int, b as int))
        } else {
            Err(MetricError::OutOfDomain)
        }
    }

    open spec fn spec_name(&self) -> Seq<char> {
        "euclidean"@
    }

    open spec fn spec_is_expensive(&self) -> bool {
        self.is_expensive
    }

    fn distance(&self, a: &i16, b: &i16) -> (d: Result<u8, MetricError>) {
        if within(*a as i64, *b as i64, NARROW_REACH) {
            Ok(clam_euclidean(*a as i64, *b as i64) as u8)
        } else {
            Err(MetricError::OutOfDomain)
        }
    }

    fn name(&self) -> (s: String) {
        "euclidean".to_owned()
    }

    fn is_expensive(&self) -> (e: bool) {
        self.is_expensive
    }
}

} // verus!

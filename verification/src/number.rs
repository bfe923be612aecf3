//! Scalars in which alignment costs are accumulated.

use vstd::prelude::*;

verus! {

/// A distance value: it has a zero, an addition that reports when the sum
/// leaves the type, and a strict order. Contracts speak of a scalar through
/// the integer it stands for.
pub trait Number: Copy {
    /// The integer this scalar stands for.
    spec fn value(self) -> int;

    /// Whether some scalar of this type stands for `v`.
    spec fn fits(v: int) -> bool;

    /// The scalar that stands for zero.
    fn zero() -> (z: Self)
        ensures
            z.value() == 0,
    ;

    /// The sum of two scalars, or `None` exactly when the type cannot hold it.
    fn sum(self, other: Self) -> (s: Option<Self>)
        ensures
            s is Some <==> Self::fits(self.value() + other.value()),
            s is Some ==> s->Some_0.value() == self.value() + other.value(),
    ;

    /// Whether `self` is strictly smaller than `other`.
    fn less(self, other: Self) -> (b: bool)
        ensures
            b == (self.value() < other.value()),
    ;
}

impl Number for u8 {
    open spec fn value(self) -> int {
        self as int
    }

    open spec fn fits(v: int) -> bool {
        0 <= v <= u8::MAX
    }

    fn zero() -> (z: Self) {
        0u8
    }

    fn sum(self, other: Self) -> (s: Option<Self>) {
        if other <= u8::MAX - self {
            Some(self + other)
        } else {
            None
        }
    }

    fn less(self, other: Self) -> (b: bool) {
        self < other
    }
}

impl Number for u16 {
    open spec fn value(self) -> int {
        self as int
    }

    open spec fn fits(v: int) -> bool {
        0 <= v <= u16::MAX
    }

    fn zero() -> (z: Self) {
        0u16
    }

    fn sum(self, other: Self) -> (s: Option<Self>) {
        if other <= u16::MAX - self {
            Some(self + other)
        } else {
            None
        }
    }

    fn less(self, other: Self) -> (b: bool) {
        self < other
    }
}

impl Number for u32 {
    open spec fn value(self) -> int {
        self as int
    }

    open spec fn fits(v: int) -> bool {
        0 <= v <= u32::MAX
    }

    fn zero() -> (z: Self) {
        0u32
    }

    fn sum(self, other: Self) -> (s: Option<Self>) {
        if other <= u32::MAX - self {
            Some(self + other)
        } else {
            None
        }
    }

    fn less(self, other: Self) -> (b: bool) {
        self < other
    }
}

impl Number for u64 {
    open spec fn value(self) -> int {
        self as int
    }

    open spec fn fits(v: int) -> bool {
        0 <= v <= u64::MAX
    }

    fn zero() -> (z: Self) {
        0u64
    }

    fn sum(self, other: Self) -> (s: Option<Self>) {
        if other <= u64::MAX - self {
            Some(self + other)
        } else {
            None
        }
    }

    fn less(self, other: Self) -> (b: bool) {
        self < other
    }
}

impl Number for i32 {
    open spec fn value(self) -> int {
        self as int
    }

    open spec fn fits(v: int) -> bool {
        i32::MIN <= v <= i32::MAX
    }

    fn zero() -> (z: Self) {
        0i32
    }

    fn sum(self, other: Self) -> (s: Option<Self>) {
        if self >= 0 {
            if other <= i32::MAX - self {
                Some(self + other)
            } else {
                None
            }
        } else if other >= i32::MIN - self {
            Some(self + other)
        } else {
            None
        }
    }

    fn less(self, other: Self) -> (b: bool) {
        self < other
    }
}

impl Number for i64 {
    open spec fn value(self) -> int {
        self as int
    }

    open spec fn fits(v: int) -> bool {
        i64::MIN <= v <= i64::MAX
    }

    fn zero() -> (z: Self) {
        0i64
    }

    fn sum(self, other: Self) -> (s: Option<Self>) {
        if self >= 0 {
            if other <= i64::MAX - self {
                Some(self + other)
            } else {
                None
            }
        } else if other >= i64::MIN - self {
            Some(self + other)
        } else {
            None
        }
    }

    fn less(self, other: Self) -> (b: bool) {
        self < other
    }
}

} // verus!

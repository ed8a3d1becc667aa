//! Numbers with a unit, and the integer types usable as counters.

use vstd::prelude::*;

verus! {

/// A type with a distinguished unit value.
pub trait One: Sized {
    /// Whether `self` is the unit.
    spec fn spec_is_one(&self) -> bool;

    /// The unit.
    fn one() -> (r: Self)
        ensures
            r.spec_is_one(),
    ;

    /// Makes `self` the unit.
    fn set_one(&mut self)
        ensures
            final(self).spec_is_one(),
    {
        *self = Self::one();
    }

    /// Whether `self` is the unit.
    fn is_one(&self) -> (r: bool)
        ensures
            r == self.spec_is_one(),
    ;
}

/// An unsigned integer type used to count occurrences.
pub trait UCounter: One + Copy {
    /// The count held.
    spec fn count(&self) -> nat;

    /// The greatest count the type can hold.
    spec fn max_count() -> nat;

    /// A count of zero.
    fn zero() -> (r: Self)
        ensures
            r.count() == 0,
    ;

    /// Adds one to the count.
    fn increment(&mut self)
        requires
            old(self).count() < Self::max_count(),
        ensures
            final(self).count() == old(self).count() + 1,
    ;

    /// Whether the count is below that of `other`.
    fn less_than(&self, other: &Self) -> (r: bool)
        ensures
            r == (self.count() < other.count()),
    ;
}

impl One for usize {
    open spec fn spec_is_one(&self) -> bool {
        *self == 1
    }

    fn one() -> (r: usize) {
        1
    }

    fn is_one(&self) -> (r: bool) {
        *self == 1
    }
}

impl One for u8 {
    open spec fn spec_is_one(&self) -> bool {
        *self == 1
    }

    fn one() -> (r: u8) {
        1
    }

    fn is_one(&self) -> (r: bool) {
        *self == 1
    }
}

impl One for u16 {
    open spec fn spec_is_one(&self) -> bool {
        *self == 1
    }

    fn one() -> (r: u16) {
        1
    }

    fn is_one(&self) -> (r: bool) {
        *self == 1
    }
}

impl One for u32 {
    open spec fn spec_is_one(&self) -> bool {
        *self == 1
    }

    fn one() -> (r: u32) {
        1
    }

    fn is_one(&self) -> (r: bool) {
        *self == 1
    }
}

impl One for u64 {
    open spec fn spec_is_one(&self) -> bool {
        *self == 1
    }

    fn one() -> (r: u64) {
        1
    }

    fn is_one(&self) -> (r: bool) {
        *self == 1
    }
}

impl One for u128 {
    open spec fn spec_is_one(&self) -> bool {
        *self == 1
    }

    fn one() -> (r: u128) {
        1
    }

    fn is_one(&self) -> (r: bool) {
        *self == 1
    }
}

impl One for isize {
    open spec fn spec_is_one(&self) -> bool {
        *self == 1
    }

    fn one() -> (r: isize) {
        1
    }

    fn is_one(&self) -> (r: bool) {
        *self == 1
    }
}

impl One for i8 {
    open spec fn spec_is_one(&self) -> bool {
        *self == 1
    }

    fn one() -> (r: i8) {
        1
    }

    fn is_one(&self) -> (r: bool) {
        *self == 1
    }
}

impl One for i16 {
    open spec fn spec_is_one(&self) -> bool {
        *self == 1
    }

    fn one() -> (r: i16) {
        1
    }

    fn is_one(&self) -> (r: bool) {
        *self == 1
    }
}

impl One for i32 {
    open spec fn spec_is_one(&self) -> bool {
        *self == 1
    }

    fn one() -> (r: i32) {
        1
    }

    fn is_one(&self) -> (r: bool) {
        *self == 1
    }
}

impl One for i64 {
    open spec fn spec_is_one(&self) -> bool {
        *self == 1
    }

    fn one() -> (r: i64) {
        1
    }

    fn is_one(&self) -> (r: bool) {
        *self == 1
    }
}

impl One for i128 {
    open spec fn spec_is_one(&self) -> bool {
        *self == 1
    }

    fn one() -> (r: i128) {
        1
    }

    fn is_one(&self) -> (r: bool) {
        *self == 1
    }
}

impl UCounter for usize {
    open spec fn count(&self) -> nat {
        *self as nat
    }

    open spec fn max_count() -> nat {
        usize::MAX as nat
    }

    fn zero() -> (r: usize) {
        0
    }

    fn increment(&mut self) {
        *self = *self + 1;
    }

    fn less_than(&self, other: &Self) -> (r: bool) {
        *self < *other
    }
}

impl UCounter for u8 {
    open spec fn count(&self) -> nat {
        *self as nat
    }

    open spec fn max_count() -> nat {
        u8::MAX as nat
    }

    fn zero() -> (r: u8) {
        0
    }

    fn increment(&mut self) {
        *self = *self + 1;
    }

    fn less_than(&self, other: &Self) -> (r: bool) {
        *self < *other
    }
}

impl UCounter for u16 {
    open spec fn count(&self) -> nat {
        *self as nat
    }

    open spec fn max_count() -> nat {
        u16::MAX as nat
    }

    fn zero() -> (r: u16) {
        0
    }

    fn increment(&mut self) {
        *self = *self + 1;
    }

    fn less_than(&self, other: &Self) -> (r: bool) {
        *self < *other
    }
}

impl UCounter for u32 {
    open spec fn count(&self) -> nat {
        *self as nat
    }

    open spec fn max_count() -> nat {
        u32::MAX as nat
    }

    fn zero() -> (r: u32) {
        0
    }

    fn increment(&mut self) {
        *self = *self + 1;
    }

    fn less_than(&self, other: &Self) -> (r: bool) {
        *self < *other
    }
}

impl UCounter for u64 {
    open spec fn count(&self) -> nat {
        *self as nat
    }

    open spec fn max_count() -> nat {
        u64::MAX as nat
    }

    fn zero() -> (r: u64) {
        0
    }

    fn increment(&mut self) {
        *self = *self + 1;
    }

    fn less_than(&self, other: &Self) -> (r: bool) {
        *self < *other
    }
}

impl UCounter for u128 {
    open spec fn count(&self) -> nat {
        *self as nat
    }

    open spec fn max_count() -> nat {
        u128::MAX as nat
    }

    fn zero() -> (r: u128) {
        0
    }

    fn increment(&mut self) {
        *self = *self + 1;
    }

    fn less_than(&self, other: &Self) -> (r: bool) {
        *self < *other
    }
}

} // verus!

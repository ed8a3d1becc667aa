//! The total order that heap elements are compared by.

use vstd::prelude::*;

verus! {

/// A total order on values, given both as a mathematical relation
/// (`at_most`) and as an executable comparison that agrees with it.
pub trait Priority: Copy + Sized {
    /// `self` is not greater than `other`.
    spec fn at_most(self, other: Self) -> bool;

    proof fn lemma_reflexive(a: Self)
        ensures
            a.at_most(a),
    ;

    proof fn lemma_transitive(a: Self, b: Self, c: Self)
        requires
            a.at_most(b),
            b.at_most(c),
        ensures
            a.at_most(c),
    ;

    proof fn lemma_antisymmetric(a: Self, b: Self)
        requires
            a.at_most(b),
            b.at_most(a),
        ensures
            a == b,
    ;

    proof fn lemma_total(a: Self, b: Self)
        ensures
            a.at_most(b) || b.at_most(a),
    ;

    /// Executable form of `at_most`.
    fn no_greater(&self, other: &Self) -> (r: bool)
        ensures
            r == self.at_most(*other),
    ;
}

impl Priority for u8 {
    open spec fn at_most(self, other: Self) -> bool {
        self <= other
    }

    proof fn lemma_reflexive(a: Self) {
    }

    proof fn lemma_transitive(a: Self, b: Self, c: Self) {
    }

    proof fn lemma_antisymmetric(a: Self, b: Self) {
    }

    proof fn lemma_total(a: Self, b: Self) {
    }

    fn no_greater(&self, other: &Self) -> (r: bool) {
        *self <= *other
    }
}

impl Priority for u16 {
    open spec fn at_most(self, other: Self) -> bool {
        self <= other
    }

    proof fn lemma_reflexive(a: Self) {
    }

    proof fn lemma_transitive(a: Self, b: Self, c: Self) {
    }

    proof fn lemma_antisymmetric(a: Self, b: Self) {
    }

    proof fn lemma_total(a: Self, b: Self) {
    }

    fn no_greater(&self, other: &Self) -> (r: bool) {
        *self <= *other
    }
}

impl Priority for u32 {
    open spec fn at_most(self, other: Self) -> bool {
        self <= other
    }

    proof fn lemma_reflexive(a: Self) {
    }

    proof fn lemma_transitive(a: Self, b: Self, c: Self) {
    }

    proof fn lemma_antisymmetric(a: Self, b: Self) {
    }

    proof fn lemma_total(a: Self, b: Self) {
    }

    fn no_greater(&self, other: &Self) -> (r: bool) {
        *self <= *other
    }
}

impl Priority for u64 {
    open spec fn at_most(self, other: Self) -> bool {
        self <= other
    }

    proof fn lemma_reflexive(a: Self) {
    }

    proof fn lemma_transitive(a: Self, b: Self, c: Self) {
    }

    proof fn lemma_antisymmetric(a: Self, b: Self) {
    }

    proof fn lemma_total(a: Self, b: Self) {
    }

    fn no_greater(&self, other: &Self) -> (r: bool) {
        *self <= *other
    }
}

impl Priority for usize {
    open spec fn at_most(self, other: Self) -> bool {
        self <= other
    }

    proof fn lemma_reflexive(a: Self) {
    }

    proof fn lemma_transitive(a: Self, b: Self, c: Self) {
    }

    proof fn lemma_antisymmetric(a: Self, b: Self) {
    }

    proof fn lemma_total(a: Self, b: Self) {
    }

    fn no_greater(&self, other: &Self) -> (r: bool) {
        *self <= *other
    }
}

impl Priority for i32 {
    open spec fn at_most(self, other: Self) -> bool {
        self <= other
    }

    proof fn lemma_reflexive(a: Self) {
    }

    proof fn lemma_transitive(a: Self, b: Self, c: Self) {
    }

    proof fn lemma_antisymmetric(a: Self, b: Self) {
    }

    proof fn lemma_total(a: Self, b: Self) {
    }

    fn no_greater(&self, other: &Self) -> (r: bool) {
        *self <= *other
    }
}

impl Priority for i64 {
    open spec fn at_most(self, other: Self) -> bool {
        self <= other
    }

    proof fn lemma_reflexive(a: Self) {
    }

    proof fn lemma_transitive(a: Self, b: Self, c: Self) {
    }

    proof fn lemma_antisymmetric(a: Self, b: Self) {
    }

    proof fn lemma_total(a: Self, b: Self) {
    }

    fn no_greater(&self, other: &Self) -> (r: bool) {
        *self <= *other
    }
}

} // verus!

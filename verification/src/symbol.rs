//! Symbols: dense, non-negative indices in a small copyable form.
//!
//! A symbol is only meaningful to the interner that issued it. Every symbol
//! type fixes how many indices it can represent (`index_limit`); on the indices
//! below that limit, `from_usize` and `to_usize` are inverse to each other.

use vstd::prelude::*;

verus! {

/// Types that can act as symbols of an interner.
///
/// An implementation chooses an encoding of the indices `0 .. index_limit()`.
/// Asking `from_usize` for an index at or beyond the limit is a logic error
/// (the symbol space is exhausted), so the index is demanded to be in range.
pub trait Symbol: Copy + Ord + Eq {
    /// The number of indices this encoding represents: exactly those below it.
    spec fn index_limit() -> nat;

    /// The symbol that stands for index `val`.
    spec fn spec_from_usize(val: usize) -> Self;

    /// The index that `self` stands for.
    spec fn spec_to_usize(self) -> usize;

    /// Every representable index is a `usize`.
    proof fn lemma_limit_is_countable()
        ensures
            Self::index_limit() <= usize::MAX + 1,
    ;

    /// Decoding an encoded index gives the index back.
    proof fn lemma_round_trip(val: usize)
        requires
            (val as nat) < Self::index_limit(),
        ensures
            Self::spec_from_usize(val).spec_to_usize() == val,
    ;

    /// Tells whether `val` is an index that this encoding represents, so that
    /// `from_usize` may be asked for its symbol.
    fn is_index(val: usize) -> (below: bool)
        ensures
            below == ((val as nat) < Self::index_limit()),
    ;

    /// Creates the symbol for index `val`.
    fn from_usize(val: usize) -> (sym: Self)
        requires
            (val as nat) < Self::index_limit(),
        ensures
            sym == Self::spec_from_usize(val),
    ;

    /// Returns the index that `self` stands for.
    fn to_usize(self) -> (val: usize)
        ensures
            val == self.spec_to_usize(),
    ;
}

/// The default symbol: 32 bits wide, holding the index plus one.
///
/// The stored number is never zero: the all-zero pattern is set aside and is
/// no symbol. The encoding therefore represents the indices below
/// `u32::MAX`, and `from_usize` has no symbol for `u32::MAX` or beyond.
#[derive(Debug, Copy, Clone, PartialEq, Eq, PartialOrd, Ord, Hash)]
pub struct Sym {
    raw: u32,
}

impl Sym {
    #[verifier::type_invariant]
    spec fn raw_is_nonzero(self) -> bool {
        self.raw != 0
    }
}

impl Symbol for Sym {
    open spec fn index_limit() -> nat {
        0xffff_ffff
    }

    closed spec fn spec_from_usize(val: usize) -> Self {
        Sym { raw: (val + 1) as u32 }
    }

    closed spec fn spec_to_usize(self) -> usize {
        (self.raw - 1) as usize
    }

    proof fn lemma_limit_is_countable() {
    }

    proof fn lemma_round_trip(val: usize) {
    }

    fn is_index(val: usize) -> (below: bool) {
        val < 0xffff_ffff
    }

    fn from_usize(val: usize) -> (sym: Self) {
        Sym { raw: (val + 1) as u32 }
    }

    fn to_usize(self) -> (val: usize) {
        proof {
            use_type_invariant(&self);
        }
        (self.raw - 1) as usize
    }
}

/// The plain symbol: the index itself. Every `usize` is a valid index.
impl Symbol for usize {
    open spec fn index_limit() -> nat {
        (usize::MAX + 1) as nat
    }

    open spec fn spec_from_usize(val: usize) -> Self {
        val
    }

    open spec fn spec_to_usize(self) -> usize {
        self
    }

    proof fn lemma_limit_is_countable() {
    }

    proof fn lemma_round_trip(val: usize) {
    }

    fn is_index(val: usize) -> (below: bool) {
        true
    }

    fn from_usize(val: usize) -> (sym: Self) {
        val
    }

    fn to_usize(self) -> (val: usize) {
        self
    }
}

} // verus!

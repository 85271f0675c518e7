//! Equality of interners: two interners are equal when they hold the same
//! texts under the same indices, whatever their hash configuration and
//! whatever the inner state of their reverse maps.

use crate::interner::StringInterner;
use crate::model::texts_of;
use crate::symbol::Symbol;
use crate::text::same_text;
use std::hash::BuildHasher;
use vstd::prelude::*;
use vstd::std_specs::cmp::PartialEqSpecImpl;

verus! {

impl<S, H> PartialEq for StringInterner<S, H> where S: Symbol, H: BuildHasher {
    fn eq(&self, rhs: &Self) -> (equal: bool) {
        let mine = self.entries();
        let theirs = rhs.entries();
        if mine.len() != theirs.len() {
            assert(self@.len() != rhs@.len());
            return false;
        }
        let count: usize = mine.len();
        let mut at: usize = 0;
        while at < count
            invariant
                at <= count,
                count == mine@.len(),
                count == theirs@.len(),
                texts_of(mine@) == self@,
                texts_of(theirs@) == rhs@,
                forall|k: int| 0 <= k < at ==> self@[k] == rhs@[k],
            decreases count - at,
        {
            if !same_text(mine[at].as_str(), theirs[at].as_str()) {
                assert(self@[at as int] != rhs@[at as int]);
                return false;
            }
            at += 1;
        }
        assert(self@ =~= rhs@);
        true
    }
}

impl<S, H> PartialEqSpecImpl for StringInterner<S, H> where S: Symbol, H: BuildHasher {
    open spec fn obeys_eq_spec() -> bool {
        true
    }

    open spec fn eq_spec(&self, rhs: &Self) -> bool {
        self@ == rhs@
    }
}

impl<S, H> Eq for StringInterner<S, H> where S: Symbol, H: BuildHasher {

}

} // verus!

//! The interner: owned storage for the texts, the reverse map over them, and
//! the operations that keep the two in step.

use crate::iter::IntoIter;
use crate::iter::Iter;
use crate::iter::Values;
use crate::laws::lemma_position_is_unique;
use crate::model::fits;
use crate::model::interned;
use crate::model::looked_up;
use crate::model::pairs_of;
use crate::model::resolved;
use crate::model::symbol_index;
use crate::model::texts_of;
use crate::reverse::ReverseMap;
use crate::std_ext::vec_shrink_to_fit;
use crate::symbol::Sym;
use crate::symbol::Symbol;
use std::collections::hash_map::RandomState;
use std::hash::BuildHasher;
use std::marker::PhantomData;
use vstd::prelude::*;
use vstd::std_specs::hash::builds_valid_hashers;

verus! {

/// An interner whose symbols are of the default type, `Sym`.
pub type DefaultStringInterner = StringInterner<Sym>;

/// A two-way mapping between texts and symbols.
///
/// Every distinct text is stored once, in an allocation of its own, and is
/// named by the symbol of its position: the first text interned has index 0,
/// the next new one index 1, and so on. `H` is the hash configuration of the
/// reverse map; it has no part in what the interner holds or returns.
///
/// `clear` makes the interner empty again and thereby ends the validity of
/// every symbol issued before. Nothing marks such a symbol as stale: handed
/// to `resolve` afterwards, it names whatever text has since been given its
/// index, or nothing.
#[derive(Debug)]
#[verifier::reject_recursive_types(S)]
#[verifier::reject_recursive_types(H)]
pub struct StringInterner<S, H = RandomState> where S: Symbol, H: BuildHasher {
    map: ReverseMap<H>,
    values: Vec<String>,
    mark: PhantomData<S>,
}

impl<S, H> View for StringInterner<S, H> where S: Symbol, H: BuildHasher {
    type V = Seq<Seq<char>>;

    /// The texts held, in the order of their symbols.
    closed spec fn view(&self) -> Seq<Seq<char>> {
        texts_of(self.values@)
    }
}

impl<S> StringInterner<S> where S: Symbol {
    /// Creates a new empty `StringInterner`.
    pub fn new() -> (interner: StringInterner<S, RandomState>)
        ensures
            interner.wf(),
            interner@ == Seq::<Seq<char>>::empty(),
    {
        let interner = StringInterner {
            map: ReverseMap::new(),
            values: Vec::new(),
            mark: PhantomData,
        };
        assert(interner@ =~= Seq::<Seq<char>>::empty());
        interner
    }

    /// Creates a new empty `StringInterner` with room for `cap` texts.
    pub fn with_capacity(cap: usize) -> (interner: Self)
        ensures
            interner.wf(),
            interner@ == Seq::<Seq<char>>::empty(),
    {
        let interner = StringInterner {
            map: ReverseMap::with_capacity(cap),
            values: Vec::with_capacity(cap),
            mark: PhantomData,
        };
        assert(interner@ =~= Seq::<Seq<char>>::empty());
        interner
    }
}

impl<S, H> StringInterner<S, H> where S: Symbol, H: BuildHasher {
    /// Whether the interner is in a state that its operations leave it in: no
    /// text is held twice, every entry has a symbol, and the reverse map
    /// finds each entry by its content.
    pub open spec fn wf(&self) -> bool {
        &&& self@.no_duplicates()
        &&& fits::<S>(self@)
        &&& self.reverse_map_agrees()
    }

    /// Whether the reverse map indexes exactly the texts held, and `H` builds
    /// hashers that give equal digests for equal input.
    pub closed spec fn reverse_map_agrees(&self) -> bool {
        self.map.wf(self@)
    }

    /// The number of entries that the reverse map has taken note of.
    pub closed spec fn reverse_map_len(&self) -> nat {
        self.map.spec_len()
    }

    /// The storage and the reverse map are of one size.
    pub proof fn lemma_reverse_map_len(&self)
        requires
            self.wf(),
        ensures
            self.reverse_map_len() == self@.len(),
    {
        self.map.lemma_len(self@);
    }

    /// Creates a new empty `StringInterner` that hashes with `hash_builder`.
    ///
    /// The interner is well-formed if the hashers that `H` builds give equal
    /// digests for equal input, as those of every sound `BuildHasher` do.
    pub fn with_hasher(hash_builder: H) -> (interner: StringInterner<S, H>)
        ensures
            interner@ == Seq::<Seq<char>>::empty(),
            builds_valid_hashers::<H>() ==> interner.wf(),
    {
        let interner = StringInterner {
            map: ReverseMap::with_hasher(hash_builder),
            values: Vec::new(),
            mark: PhantomData,
        };
        assert(interner@ =~= Seq::<Seq<char>>::empty());
        interner
    }

    /// Creates a new empty `StringInterner` with room for `cap` texts that
    /// hashes with `hash_builder`.
    ///
    /// The interner is well-formed if the hashers that `H` builds give equal
    /// digests for equal input, as those of every sound `BuildHasher` do.
    pub fn with_capacity_and_hasher(cap: usize, hash_builder: H) -> (interner: StringInterner<S, H>)
        ensures
            interner@ == Seq::<Seq<char>>::empty(),
            builds_valid_hashers::<H>() ==> interner.wf(),
    {
        let interner = StringInterner {
            map: ReverseMap::with_capacity_and_hasher(cap, hash_builder),
            values: Vec::with_capacity(cap),
            mark: PhantomData,
        };
        assert(interner@ =~= Seq::<Seq<char>>::empty());
        interner
    }

    /// Interns `val` and returns its symbol.
    ///
    /// A text that is already held keeps its symbol and nothing changes. A new
    /// text is copied into the interner and gets the next free index, for
    /// which `S` must have a symbol left.
    pub fn get_or_intern(&mut self, val: &str) -> (sym: S)
        requires
            old(self).wf(),
            old(self)@.contains(val@) || old(self)@.len() < S::index_limit(),
        ensures
            final(self).wf(),
            final(self)@ == interned(old(self)@, val@),
            sym == S::spec_from_usize(symbol_index(old(self)@, val@) as usize),
            old(self)@.contains(val@) ==> *final(self) == *old(self),
    {
        match self.map.find(&self.values, val) {
            Some(at) => {
                proof {
                    lemma_position_is_unique(self@, val@, at as int);
                }
                S::from_usize(at)
            },
            None => self.intern(val),
        }
    }

    /// Interns `new_val`, which is not held yet, and returns its symbol.
    fn intern(&mut self, new_val: &str) -> (sym: S)
        requires
            old(self).wf(),
            !old(self)@.contains(new_val@),
            old(self)@.len() < S::index_limit(),
        ensures
            final(self).wf(),
            final(self)@ == old(self)@.push(new_val@),
            sym == S::spec_from_usize(old(self)@.len() as usize),
    {
        let new_id: S = self.make_symbol();
        self.values.push(new_val.to_owned());
        self.map.add(new_val, Ghost(old(self)@));
        assert(self@ =~= old(self)@.push(new_val@));
        new_id
    }

    /// Creates the symbol that the next new text will get.
    fn make_symbol(&self) -> (sym: S)
        requires
            self@.len() < S::index_limit(),
        ensures
            sym == S::spec_from_usize(self@.len() as usize),
    {
        S::from_usize(self.len())
    }

    /// Returns the text that `symbol` names, or `None` if its index is not
    /// that of an entry.
    pub fn resolve(&self, symbol: S) -> (text: Option<&str>)
        ensures
            match text {
                Some(t) => resolved(self@, symbol) == Some(t@),
                None => resolved(self@, symbol) is None,
            },
    {
        let at = symbol.to_usize();
        if at < self.values.len() {
            Some(self.values[at].as_str())
        } else {
            None
        }
    }

    /// Returns the text that `symbol` names, for a symbol known to be that of
    /// an entry. It is the caller who answers for that.
    pub fn resolve_unchecked(&self, symbol: S) -> (text: &str)
        requires
            symbol.spec_to_usize() < self@.len(),
        ensures
            text@ == self@[symbol.spec_to_usize() as int],
    {
        self.values[symbol.to_usize()].as_str()
    }

    /// Returns the symbol of `val` if it is held.
    pub fn get(&self, val: &str) -> (sym: Option<S>)
        requires
            self.wf(),
        ensures
            sym == looked_up::<S>(self@, val@),
    {
        match self.map.find(&self.values, val) {
            Some(at) => {
                proof {
                    lemma_position_is_unique(self@, val@, at as int);
                }
                Some(S::from_usize(at))
            },
            None => None,
        }
    }

    /// Returns the number of texts held.
    pub fn len(&self) -> (count: usize)
        ensures
            count == self@.len(),
    {
        self.values.len()
    }

    /// Returns true if no text is held.
    pub fn is_empty(&self) -> (empty: bool)
        ensures
            empty == (self@.len() == 0),
    {
        self.len() == 0
    }

    /// Returns a traversal of the symbols and their texts, in the order of
    /// the symbols.
    pub fn iter(&self) -> (iter: Iter<'_, S>)
        requires
            self.wf(),
        ensures
            iter.wf(),
            iter.remaining() == pairs_of::<S>(self@),
    {
        Iter::new(self)
    }

    /// Returns a traversal of the texts, in the order of their symbols.
    pub fn iter_values(&self) -> (iter: Values<'_, S>)
        ensures
            iter.wf(),
            iter.remaining() == self@,
    {
        Values::new(self)
    }

    /// Turns the interner into a traversal that hands out the symbols with
    /// their texts, in the order of the symbols.
    pub fn into_iter(self) -> (iter: IntoIter<S>)
        requires
            self.wf(),
        ensures
            iter.wf(),
            iter.remaining() == pairs_of::<S>(self@),
    {
        proof {
            S::lemma_limit_is_countable();
        }
        IntoIter::new(self.values)
    }

    /// Removes every text. The symbols issued so far are no longer valid, and
    /// the next text interned gets index 0.
    pub fn clear(&mut self)
        requires
            old(self).wf(),
        ensures
            final(self).wf(),
            final(self)@ == Seq::<Seq<char>>::empty(),
    {
        self.map.clear(Ghost(self@));
        self.values.clear();
        assert(self@ =~= Seq::<Seq<char>>::empty());
    }

    /// Gives spare capacity back. What is held, and under which symbols,
    /// stays as it is.
    pub fn shrink_to_fit(&mut self)
        requires
            old(self).wf(),
        ensures
            final(self).wf(),
            final(self)@ == old(self)@,
    {
        self.map.shrink_to_fit(Ghost(self@));
        vec_shrink_to_fit(&mut self.values);
    }

    /// The stored texts.
    pub(crate) fn entries(&self) -> (values: &Vec<String>)
        ensures
            texts_of(values@) == self@,
    {
        &self.values
    }
}

impl<S, H> Clone for StringInterner<S, H> where S: Symbol, H: BuildHasher + Clone {
    /// Copies the interner: the copy holds the same texts under the same
    /// symbols.
    fn clone(&self) -> (copy: Self)
        ensures
            copy@ == self@,
            self.wf() ==> copy.wf(),
    {
        let copy = StringInterner {
            map: self.map.clone(),
            values: self.values.clone(),
            mark: PhantomData,
        };
        assert(copy@ =~= self@);
        copy
    }
}

impl Default for StringInterner<Sym, RandomState> {
    fn default() -> (interner: Self)
        ensures
            interner.wf(),
            interner@ == Seq::<Seq<char>>::empty(),
    {
        StringInterner::new()
    }
}

} // verus!

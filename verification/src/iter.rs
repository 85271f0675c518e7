//! Traversals of an interner: by reference with symbols, by reference without
//! them, and by value. Each goes through the entries once, in the order of
//! their symbols.

use crate::interner::StringInterner;
use crate::model::fits;
use crate::model::pairs_of;
use crate::model::texts_of;
use crate::symbol::Symbol;
use std::hash::BuildHasher;
use std::marker::PhantomData;
use vstd::prelude::*;

verus! {

/// Traversal of the symbols of an interner with their texts.
pub struct Iter<'a, S: Symbol> {
    entries: &'a Vec<String>,
    position: usize,
    mark: PhantomData<S>,
}

impl<'a, S: Symbol> Iter<'a, S> {
    /// Whether the traversal stands at or before the end of its entries, and
    /// `S` has a symbol for each of them.
    pub closed spec fn wf(&self) -> bool {
        &&& self.position <= self.entries@.len()
        &&& fits::<S>(texts_of(self.entries@))
    }

    /// The pairs that are still to come, in the order in which `next` gives
    /// them.
    pub closed spec fn remaining(&self) -> Seq<(S, Seq<char>)> {
        pairs_of::<S>(texts_of(self.entries@)).skip(self.position as int)
    }

    /// Starts a traversal of `interner` at its first entry.
    pub(crate) fn new<H: BuildHasher>(interner: &'a StringInterner<S, H>) -> (iter: Self)
        requires
            interner.wf(),
        ensures
            iter.wf(),
            iter.remaining() == pairs_of::<S>(interner@),
    {
        let iter = Iter { entries: interner.entries(), position: 0, mark: PhantomData };
        assert(iter.remaining() =~= pairs_of::<S>(interner@));
        iter
    }

    /// Gives the next pair and steps past it, or gives `None` at the end.
    pub fn next(&mut self) -> (item: Option<(S, &'a str)>)
        requires
            old(self).wf(),
        ensures
            final(self).wf(),
            match item {
                Some((sym, text)) => old(self).remaining().len() > 0 && (sym, text@) == old(
                    self,
                ).remaining()[0] && final(self).remaining() == old(self).remaining().drop_first(),
                None => old(self).remaining().len() == 0 && final(self).remaining() == old(
                    self,
                ).remaining(),
            },
    {
        if self.position < self.entries.len() {
            let sym = S::from_usize(self.position);
            let text = self.entries[self.position].as_str();
            self.position += 1;
            assert(self.remaining() =~= old(self).remaining().drop_first());
            Some((sym, text))
        } else {
            None
        }
    }

    /// Gives the number of pairs still to come, as a lower and an upper bound.
    pub fn size_hint(&self) -> (hint: (usize, Option<usize>))
        requires
            self.wf(),
        ensures
            hint.0 == self.remaining().len(),
            hint.1 == Some(hint.0),
    {
        let left = self.entries.len() - self.position;
        (left, Some(left))
    }
}

/// Traversal of the texts of an interner.
pub struct Values<'a, S: Symbol> {
    entries: &'a Vec<String>,
    position: usize,
    mark: PhantomData<S>,
}

impl<'a, S: Symbol> Values<'a, S> {
    /// Whether the traversal stands at or before the end of its entries.
    pub closed spec fn wf(&self) -> bool {
        self.position <= self.entries@.len()
    }

    /// The texts that are still to come, in the order in which `next` gives
    /// them.
    pub closed spec fn remaining(&self) -> Seq<Seq<char>> {
        texts_of(self.entries@).skip(self.position as int)
    }

    /// Starts a traversal of `interner` at its first entry.
    pub(crate) fn new<H: BuildHasher>(interner: &'a StringInterner<S, H>) -> (iter: Self)
        ensures
            iter.wf(),
            iter.remaining() == interner@,
    {
        let iter = Values { entries: interner.entries(), position: 0, mark: PhantomData };
        assert(iter.remaining() =~= interner@);
        iter
    }

    /// Gives the next text and steps past it, or gives `None` at the end.
    pub fn next(&mut self) -> (item: Option<&'a str>)
        requires
            old(self).wf(),
        ensures
            final(self).wf(),
            match item {
                Some(text) => old(self).remaining().len() > 0 && text@ == old(self).remaining()[0]
                    && final(self).remaining() == old(self).remaining().drop_first(),
                None => old(self).remaining().len() == 0 && final(self).remaining() == old(
                    self,
                ).remaining(),
            },
    {
        if self.position < self.entries.len() {
            let text = self.entries[self.position].as_str();
            self.position += 1;
            assert(self.remaining() =~= old(self).remaining().drop_first());
            Some(text)
        } else {
            None
        }
    }

    /// Gives the number of texts still to come, as a lower and an upper
    /// bound.
    pub fn size_hint(&self) -> (hint: (usize, Option<usize>))
        requires
            self.wf(),
        ensures
            hint.0 == self.remaining().len(),
            hint.1 == Some(hint.0),
    {
        let left = self.entries.len() - self.position;
        (left, Some(left))
    }
}

/// Traversal that owns the texts of a former interner and hands them out
/// with their symbols.
pub struct IntoIter<S: Symbol> {
    /// The texts still to come, the next one last.
    rest: Vec<String>,
    position: usize,
    mark: PhantomData<S>,
}

impl<S: Symbol> IntoIter<S> {
    /// Whether `S` has a symbol for each text still to come.
    pub closed spec fn wf(&self) -> bool {
        &&& self.position + self.rest@.len() <= S::index_limit()
        &&& self.position + self.rest@.len() <= usize::MAX
    }

    /// The pairs that are still to come, in the order in which `next` gives
    /// them.
    pub closed spec fn remaining(&self) -> Seq<(S, Seq<char>)> {
        Seq::new(
            self.rest@.len(),
            |i: int|
                (
                    S::spec_from_usize((self.position + i) as usize),
                    self.rest@[self.rest@.len() - 1 - i]@,
                ),
        )
    }

    /// Starts a traversal that hands out `values`, first to last.
    pub(crate) fn new(values: Vec<String>) -> (iter: Self)
        requires
            fits::<S>(texts_of(values@)),
        ensures
            iter.wf(),
            iter.remaining() == pairs_of::<S>(texts_of(values@)),
    {
        let ghost all = values@;
        let mut source = values;
        let mut rest: Vec<String> = Vec::with_capacity(source.len());
        while source.len() > 0
            invariant
                source@.len() + rest@.len() == all.len(),
                forall|k: int| 0 <= k < source@.len() ==> source@[k] == all[k],
                forall|k: int| 0 <= k < rest@.len() ==> rest@[k] == all[all.len() - 1 - k],
            decreases source@.len(),
        {
            let last = source.pop().unwrap();
            rest.push(last);
        }
        let iter = IntoIter { rest, position: 0, mark: PhantomData };
        assert(iter.remaining() =~= pairs_of::<S>(texts_of(all)));
        iter
    }

    /// Gives the next pair, handing its text over, or gives `None` at the
    /// end.
    pub fn next(&mut self) -> (item: Option<(S, String)>)
        requires
            old(self).wf(),
        ensures
            final(self).wf(),
            match item {
                Some((sym, text)) => old(self).remaining().len() > 0 && (sym, text@) == old(
                    self,
                ).remaining()[0] && final(self).remaining() == old(self).remaining().drop_first(),
                None => old(self).remaining().len() == 0 && final(self).remaining() == old(
                    self,
                ).remaining(),
            },
    {
        match self.rest.pop() {
            Some(text) => {
                let sym = S::from_usize(self.position);
                self.position += 1;
                assert(self.remaining() =~= old(self).remaining().drop_first());
                Some((sym, text))
            },
            None => None,
        }
    }

    /// Gives the number of pairs still to come, as a lower and an upper bound.
    pub fn size_hint(&self) -> (hint: (usize, Option<usize>))
        ensures
            hint.0 == self.remaining().len(),
            hint.1 == Some(hint.0),
    {
        let left = self.rest.len();
        (left, Some(left))
    }
}

} // verus!

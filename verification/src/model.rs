//! The interner as a mathematical object.
//!
//! An interner is modelled by the sequence of the texts it holds, in the order
//! in which they were first interned: the text at position `i` is the one that
//! the symbol for index `i` names. The functions here say, on that sequence,
//! what every operation of the interner returns and leaves behind.

use crate::symbol::Symbol;
use vstd::prelude::*;

verus! {

/// The texts of a sequence of owned strings, position by position.
pub open spec fn texts_of(values: Seq<String>) -> Seq<Seq<char>> {
    values.map_values(|value: String| value@)
}

/// The index whose symbol interning `text` into `entries` returns: where the
/// text already stands, or else the next free position.
pub open spec fn symbol_index(entries: Seq<Seq<char>>, text: Seq<char>) -> int {
    if entries.contains(text) {
        entries.index_of(text)
    } else {
        entries.len() as int
    }
}

/// The entries after interning `text`: unchanged where the text is already
/// held, else with the text appended.
pub open spec fn interned(entries: Seq<Seq<char>>, text: Seq<char>) -> Seq<Seq<char>> {
    if entries.contains(text) {
        entries
    } else {
        entries.push(text)
    }
}

/// The entries after interning each of `texts` in turn.
pub open spec fn interned_all(entries: Seq<Seq<char>>, texts: Seq<Seq<char>>) -> Seq<Seq<char>>
    decreases texts.len(),
{
    if texts.len() == 0 {
        entries
    } else {
        interned(interned_all(entries, texts.drop_last()), texts.last())
    }
}

/// The symbol under which `text` is held, if it is held.
pub open spec fn looked_up<S: Symbol>(entries: Seq<Seq<char>>, text: Seq<char>) -> Option<S> {
    if entries.contains(text) {
        Some(S::spec_from_usize(entries.index_of(text) as usize))
    } else {
        None
    }
}

/// The text that `symbol` names, if its index is one of an entry.
pub open spec fn resolved<S: Symbol>(entries: Seq<Seq<char>>, symbol: S) -> Option<Seq<char>> {
    if symbol.spec_to_usize() < entries.len() {
        Some(entries[symbol.spec_to_usize() as int])
    } else {
        None
    }
}

/// The pairs of symbol and text that a traversal of `entries` gives, in order.
pub open spec fn pairs_of<S: Symbol>(entries: Seq<Seq<char>>) -> Seq<(S, Seq<char>)> {
    Seq::new(entries.len(), |i: int| (S::spec_from_usize(i as usize), entries[i]))
}

/// Whether the symbol type `S` has an index for every entry.
pub open spec fn fits<S: Symbol>(entries: Seq<Seq<char>>) -> bool {
    entries.len() <= S::index_limit()
}

} // verus!

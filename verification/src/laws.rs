//! What holds of interning, whatever is interned: proved once, on the model.

use crate::model::fits;
use crate::model::interned;
use crate::model::interned_all;
use crate::model::looked_up;
use crate::model::pairs_of;
use crate::model::resolved;
use crate::model::symbol_index;
use crate::symbol::Symbol;
use vstd::prelude::*;

verus! {

/// In a sequence without repetitions, a text stands at one position only.
pub proof fn lemma_position_is_unique(entries: Seq<Seq<char>>, text: Seq<char>, at: int)
    requires
        entries.no_duplicates(),
        0 <= at < entries.len(),
        entries[at] == text,
    ensures
        entries.contains(text),
        entries.index_of(text) == at,
{
}

/// Interning keeps the entries free of repetitions.
pub proof fn lemma_interned_is_distinct(entries: Seq<Seq<char>>, text: Seq<char>)
    requires
        entries.no_duplicates(),
    ensures
        interned(entries, text).no_duplicates(),
{
}

/// Interning leaves every entry where it was, so that no symbol comes to
/// name another text.
pub proof fn lemma_interning_keeps_entries(entries: Seq<Seq<char>>, text: Seq<char>)
    ensures
        entries.is_prefix_of(interned(entries, text)),
{
}

/// Interning a text a second time changes nothing and returns the index that
/// the first interning returned.
pub proof fn lemma_interning_twice(entries: Seq<Seq<char>>, text: Seq<char>)
    requires
        entries.no_duplicates(),
    ensures
        interned(interned(entries, text), text) == interned(entries, text),
        symbol_index(interned(entries, text), text) == symbol_index(entries, text),
{
    if !entries.contains(text) {
        let after = entries.push(text);
        lemma_position_is_unique(after, text, entries.len() as int);
    }
}

/// The symbol that interning returns resolves to the interned text, and
/// looking the text up afterwards gives that same symbol.
pub proof fn lemma_symbol_resolves<S: Symbol>(entries: Seq<Seq<char>>, text: Seq<char>)
    requires
        entries.no_duplicates(),
        symbol_index(entries, text) < S::index_limit(),
    ensures
        resolved::<S>(
            interned(entries, text),
            S::spec_from_usize(symbol_index(entries, text) as usize),
        ) == Some(text),
        looked_up::<S>(interned(entries, text), text) == Some(
            S::spec_from_usize(symbol_index(entries, text) as usize),
        ),
{
    let index = symbol_index(entries, text);
    S::lemma_limit_is_countable();
    S::lemma_round_trip(index as usize);
    lemma_interning_twice(entries, text);
}

/// Every entry is found under the symbol of its position, and that symbol
/// resolves to the entry.
pub proof fn lemma_entries_and_symbols_correspond<S: Symbol>(entries: Seq<Seq<char>>, at: int)
    requires
        entries.no_duplicates(),
        fits::<S>(entries),
        0 <= at < entries.len(),
    ensures
        looked_up::<S>(entries, entries[at]) == Some(S::spec_from_usize(at as usize)),
        resolved::<S>(entries, S::spec_from_usize(at as usize)) == Some(entries[at]),
{
    S::lemma_limit_is_countable();
    S::lemma_round_trip(at as usize);
    lemma_position_is_unique(entries, entries[at], at);
}

/// A text that is not yet held gets the next free index, which is the number
/// of entries.
pub proof fn lemma_new_text_gets_next_index(entries: Seq<Seq<char>>, text: Seq<char>)
    requires
        !entries.contains(text),
    ensures
        symbol_index(entries, text) == entries.len(),
        interned(entries, text) == entries.push(text),
{
}

/// Interning into an empty interner, such as one that was just cleared,
/// starts again at index 0.
pub proof fn lemma_first_index_is_zero(text: Seq<char>)
    ensures
        symbol_index(Seq::<Seq<char>>::empty(), text) == 0,
        interned(Seq::<Seq<char>>::empty(), text) == seq![text],
{
    assert(Seq::<Seq<char>>::empty().push(text) =~= seq![text]);
}

/// After interning, the texts held are those held before and the interned
/// one.
pub proof fn lemma_interned_holds(entries: Seq<Seq<char>>, text: Seq<char>)
    ensures
        interned(entries, text).to_set() == entries.to_set().insert(text),
{
    if entries.contains(text) {
        assert(entries.to_set().insert(text) =~= entries.to_set());
    } else {
        entries.lemma_push_to_set_commute(text);
    }
}

/// After interning a run of texts, the entries are free of repetitions, keep
/// what was held before, and hold exactly the earlier entries and the texts.
pub proof fn lemma_interned_all(entries: Seq<Seq<char>>, texts: Seq<Seq<char>>)
    requires
        entries.no_duplicates(),
    ensures
        interned_all(entries, texts).no_duplicates(),
        entries.is_prefix_of(interned_all(entries, texts)),
        interned_all(entries, texts).to_set() == entries.to_set().union(texts.to_set()),
    decreases texts.len(),
{
    let all = interned_all(entries, texts);
    if texts.len() == 0 {
        assert(texts.to_set() =~= Set::<Seq<char>>::empty());
        assert(all.to_set() =~= entries.to_set().union(texts.to_set()));
    } else {
        let earlier = texts.drop_last();
        let before = interned_all(entries, earlier);
        lemma_interned_all(entries, earlier);
        lemma_interned_is_distinct(before, texts.last());
        lemma_interned_holds(before, texts.last());
        assert(texts =~= earlier.push(texts.last()));
        earlier.lemma_push_to_set_commute(texts.last());
        assert(all.to_set() =~= entries.to_set().union(texts.to_set()));
    }
}

/// The number of entries is the number of distinct texts interned since the
/// interner was empty.
pub proof fn lemma_length_counts_distinct_texts(texts: Seq<Seq<char>>)
    ensures
        interned_all(Seq::<Seq<char>>::empty(), texts).len() == texts.to_set().len(),
{
    let start = Seq::<Seq<char>>::empty();
    let all = interned_all(start, texts);
    lemma_interned_all(start, texts);
    all.unique_seq_to_set();
    assert(start.to_set() =~= Set::<Seq<char>>::empty());
    assert(all.to_set() =~= texts.to_set());
}

/// Symbols follow the order of first interning: a text interned for the first
/// time gets as its index the number of distinct texts interned before it.
pub proof fn lemma_indices_follow_insertion_order(texts: Seq<Seq<char>>, text: Seq<char>)
    requires
        !texts.contains(text),
    ensures
        symbol_index(interned_all(Seq::<Seq<char>>::empty(), texts), text) == texts.to_set().len(),
{
    let start = Seq::<Seq<char>>::empty();
    let all = interned_all(start, texts);
    lemma_interned_all(start, texts);
    lemma_length_counts_distinct_texts(texts);
    assert(start.to_set() =~= Set::<Seq<char>>::empty());
    assert(all.to_set() =~= texts.to_set());
    assert(!all.to_set().contains(text));
}

/// A traversal gives one pair for each entry, in the order of the entries,
/// each with the symbol of its position, and no pair twice.
pub proof fn lemma_pairs_follow_entries<S: Symbol>(entries: Seq<Seq<char>>)
    requires
        entries.no_duplicates(),
        fits::<S>(entries),
    ensures
        pairs_of::<S>(entries).len() == entries.len(),
        pairs_of::<S>(entries).no_duplicates(),
        forall|i: int|
            0 <= i < entries.len() ==> (#[trigger] pairs_of::<S>(entries)[i]).1 == entries[i]
                && pairs_of::<S>(entries)[i].0.spec_to_usize() == i,
{
    S::lemma_limit_is_countable();
    assert forall|i: int| 0 <= i < entries.len() implies (#[trigger] pairs_of::<S>(
        entries,
    )[i]).0.spec_to_usize() == i by {
        S::lemma_round_trip(i as usize);
    }
}

} // verus!

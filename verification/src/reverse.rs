//! The reverse map: from the content of a text to the position of the entry
//! that holds it.
//!
//! The map stores no text of its own. It keys on the digest of a text and, for
//! each digest, remembers the position of the newest entry with that digest;
//! every entry links to the entry before it with the same digest. A lookup
//! walks that chain and compares the stored texts themselves, so entries are
//! found by content, and nothing here refers to where a text lies in memory.

use crate::model::texts_of;
use crate::std_ext::hash_map_shrink_to_fit;
use crate::std_ext::hash_map_with_hasher;
use crate::std_ext::vec_shrink_to_fit;
use crate::text::digest;
use crate::text::digest_of;
use crate::text::same_text;
use std::collections::hash_map::RandomState;
use std::collections::HashMap;
use std::hash::BuildHasher;
use vstd::prelude::*;
use vstd::std_specs::hash::builds_valid_hashers;

verus! {

/// Whether following the links from position `from` leads to position `to`.
/// Links only ever point to earlier positions.
pub open spec fn chained(links: Seq<Option<usize>>, from: int, to: int) -> bool
    decreases from,
{
    &&& 0 <= from < links.len()
    &&& (from == to || match links[from] {
        Some(previous) => previous < from && chained(links, previous as int, to),
        None => false,
    })
}

/// A chain that exists stays when another link is appended.
pub proof fn lemma_chained_after_push(
    links: Seq<Option<usize>>,
    link: Option<usize>,
    from: int,
    to: int,
)
    requires
        chained(links, from, to),
    ensures
        chained(links.push(link), from, to),
    decreases from,
{
    if from != to {
        lemma_chained_after_push(links, link, links[from].unwrap() as int, to);
    }
}

/// The reverse map of an interner, hashing its keys with `H`.
#[derive(Debug)]
#[verifier::reject_recursive_types(H)]
pub struct ReverseMap<H: BuildHasher> {
    heads: HashMap<u64, usize, H>,
    links: Vec<Option<usize>>,
}

impl<H: BuildHasher> ReverseMap<H> {
    /// Whether this map indexes exactly `entries`: it has one link for each
    /// entry, every chain holds entries of one digest, and every entry is on
    /// the chain that starts at the head of its digest.
    pub closed spec fn wf(&self, entries: Seq<Seq<char>>) -> bool {
        &&& builds_valid_hashers::<H>()
        &&& self.links@.len() == entries.len()
        &&& forall|i: int|
            0 <= i < entries.len() ==> match #[trigger] self.links@[i] {
                Some(previous) => previous < i && digest_of(entries[previous as int]) == digest_of(
                    entries[i],
                ),
                None => true,
            }
        &&& forall|d: u64| #[trigger]
            self.heads@.contains_key(d) ==> self.heads@[d] < entries.len() && digest_of(
                entries[self.heads@[d] as int],
            ) == d
        &&& forall|i: int|
            0 <= i < entries.len() ==> self.heads@.contains_key(digest_of(#[trigger] entries[i]))
                && chained(self.links@, self.heads@[digest_of(entries[i])] as int, i)
    }

    /// The number of entries that the map has taken note of.
    pub closed spec fn spec_len(&self) -> nat {
        self.links@.len()
    }

    /// A map that indexes `entries` has taken note of as many entries as
    /// there are.
    pub proof fn lemma_len(&self, entries: Seq<Seq<char>>)
        requires
            self.wf(entries),
        ensures
            self.spec_len() == entries.len(),
    {
    }

    /// Creates an empty map that hashes with `hash_builder`.
    pub fn with_hasher(hash_builder: H) -> (map: Self)
        ensures
            builds_valid_hashers::<H>() ==> map.wf(Seq::<Seq<char>>::empty()),
    {
        ReverseMap { heads: hash_map_with_hasher(hash_builder), links: Vec::new() }
    }

    /// Creates an empty map that hashes with `hash_builder`, with room for
    /// `capacity` links.
    pub fn with_capacity_and_hasher(capacity: usize, hash_builder: H) -> (map: Self)
        ensures
            builds_valid_hashers::<H>() ==> map.wf(Seq::<Seq<char>>::empty()),
    {
        ReverseMap { heads: hash_map_with_hasher(hash_builder), links: Vec::with_capacity(capacity) }
    }

    /// Returns the position of an entry that holds `text`, or `None` if no
    /// entry does.
    pub fn find(&self, values: &Vec<String>, text: &str) -> (found: Option<usize>)
        requires
            self.wf(texts_of(values@)),
        ensures
            match found {
                Some(at) => at < values@.len() && values@[at as int]@ == text@,
                None => !texts_of(values@).contains(text@),
            },
    {
        let ghost entries = texts_of(values@);
        let d = digest(text);
        let mut current: Option<usize> = match self.heads.get(&d) {
            Some(head) => Some(*head),
            None => None,
        };
        while current.is_some()
            invariant
                self.wf(entries),
                entries == texts_of(values@),
                match current {
                    Some(at) => at < entries.len(),
                    None => true,
                },
                forall|i: int|
                    0 <= i < entries.len() && #[trigger] entries[i] == text@ ==> current.is_some()
                        && chained(self.links@, current.unwrap() as int, i),
            decreases
                    (match current {
                        Some(at) => at + 1,
                        None => 0,
                    }),
        {
            let at = current.unwrap();
            if same_text(values[at].as_str(), text) {
                return Some(at);
            }
            current = self.links[at];
        }
        None
    }

    /// Takes note of one more entry, which holds `text` and stands behind the
    /// entries indexed so far.
    pub fn add(&mut self, text: &str, Ghost(entries): Ghost<Seq<Seq<char>>>)
        requires
            old(self).wf(entries),
        ensures
            final(self).wf(entries.push(text@)),
    {
        let d = digest(text);
        let at = self.links.len();
        let previous: Option<usize> = match self.heads.get(&d) {
            Some(head) => Some(*head),
            None => None,
        };
        self.links.push(previous);
        self.heads.insert(d, at);
        proof {
            let after = entries.push(text@);
            assert forall|i: int| 0 <= i < after.len() implies self.heads@.contains_key(
                digest_of(#[trigger] after[i]),
            ) && chained(self.links@, self.heads@[digest_of(after[i])] as int, i) by {
                if i < entries.len() {
                    let head = old(self).heads@[digest_of(entries[i])];
                    lemma_chained_after_push(old(self).links@, previous, head as int, i);
                }
            }
        }
    }

    /// Forgets every entry.
    pub fn clear(&mut self, Ghost(entries): Ghost<Seq<Seq<char>>>)
        requires
            old(self).wf(entries),
        ensures
            final(self).wf(Seq::<Seq<char>>::empty()),
    {
        self.heads.clear();
        self.links.clear();
    }

    /// Gives spare capacity back; the map indexes what it indexed before.
    pub fn shrink_to_fit(&mut self, Ghost(entries): Ghost<Seq<Seq<char>>>)
        requires
            old(self).wf(entries),
        ensures
            final(self).wf(entries),
    {
        hash_map_shrink_to_fit(&mut self.heads);
        vec_shrink_to_fit(&mut self.links);
    }
}

impl<H: BuildHasher + Clone> Clone for ReverseMap<H> {
    /// Copies the map; the copy indexes whatever this map indexes.
    fn clone(&self) -> (copy: Self)
        ensures
            forall|entries: Seq<Seq<char>>| #[trigger] self.wf(entries) ==> copy.wf(entries),
    {
        let copy = ReverseMap { heads: self.heads.clone(), links: self.links.clone() };
        assert(copy.links@ =~= self.links@);
        copy
    }
}

impl ReverseMap<RandomState> {
    /// Creates an empty map.
    pub fn new() -> (map: Self)
        ensures
            map.wf(Seq::<Seq<char>>::empty()),
    {
        ReverseMap { heads: HashMap::new(), links: Vec::new() }
    }

    /// Creates an empty map with room for `capacity` entries.
    pub fn with_capacity(capacity: usize) -> (map: Self)
        ensures
            map.wf(Seq::<Seq<char>>::empty()),
    {
        ReverseMap { heads: HashMap::with_capacity(capacity), links: Vec::with_capacity(capacity) }
    }
}

} // verus!

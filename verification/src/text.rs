//! Text by content: equality and a digest that depend on the characters of a
//! string alone, never on where it is stored.

use std::collections::hash_map::DefaultHasher;
use std::hash::Hasher;
use vstd::prelude::*;
use vstd::std_specs::hash::DefaultHasherAdditionalSpecFns;
use vstd::string::StringSliceAdditionalSpecFns;
use vstd::utf8::*;

verus! {

/// The digest of a text: what a freshly made `DefaultHasher` returns after one
/// write of the text's UTF-8 bytes.
pub open spec fn digest_of(text: Seq<char>) -> u64 {
    DefaultHasher::spec_finish(seq![encode_utf8(text)])
}

/// Two texts with the same UTF-8 bytes are the same text.
pub proof fn lemma_bytes_determine_text(a: Seq<char>, b: Seq<char>)
    requires
        encode_utf8(a) == encode_utf8(b),
    ensures
        a == b,
{
    encode_utf8_decode_utf8(a);
    encode_utf8_decode_utf8(b);
}

/// Computes the digest of `text`.
pub fn digest(text: &str) -> (d: u64)
    ensures
        d == digest_of(text@),
{
    let mut hasher = DefaultHasher::new();
    hasher.write(text.as_bytes());
    assert(hasher@ =~= seq![encode_utf8(text@)]);
    hasher.finish()
}

/// Tells whether `a` and `b` hold the same characters.
pub fn same_text(a: &str, b: &str) -> (same: bool)
    ensures
        same == (a@ == b@),
{
    let a_bytes = a.as_bytes();
    let b_bytes = b.as_bytes();
    if a_bytes.len() != b_bytes.len() {
        return false;
    }
    let len: usize = a_bytes.len();
    let mut at: usize = 0;
    while at < len
        invariant
            at <= len,
            len == a_bytes@.len(),
            len == b_bytes@.len(),
            a_bytes@ == a.spec_bytes(),
            b_bytes@ == b.spec_bytes(),
            forall|k: int| 0 <= k < at ==> a_bytes@[k] == b_bytes@[k],
        decreases len - at,
    {
        if a_bytes[at] != b_bytes[at] {
            return false;
        }
        at += 1;
    }
    proof {
        assert(a_bytes@ =~= b_bytes@);
        lemma_bytes_determine_text(a@, b@);
    }
    true
}

} // verus!

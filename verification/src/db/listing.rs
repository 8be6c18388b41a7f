//! The order in which a partition is walked.

use crate::model::wire::{lemma_lex_lt_asymmetric, lex_lt};
use vstd::prelude::*;

verus! {

/// `listing` holds the entries of `entries`, each once, in ascending order of
/// their keys.
pub open spec fn is_listing(listing: Seq<(Seq<u8>, Seq<u8>)>, entries: Map<Seq<u8>, Seq<u8>>) -> bool {
    &&& forall|i: int, j: int|
        0 <= i < j < listing.len() ==> lex_lt(#[trigger] listing[i].0, #[trigger] listing[j].0)
    &&& forall|i: int|
        0 <= i < listing.len() ==> entries.contains_key(#[trigger] listing[i].0) && entries[listing[i].0]
            == listing[i].1
    &&& forall|k: Seq<u8>| #[trigger]
        entries.contains_key(k) ==> exists|i: int| 0 <= i < listing.len() && #[trigger] listing[i].0 == k
}

/// A partition has one listing only.
pub proof fn lemma_listing_unique(
    one: Seq<(Seq<u8>, Seq<u8>)>,
    other: Seq<(Seq<u8>, Seq<u8>)>,
    entries: Map<Seq<u8>, Seq<u8>>,
)
    requires
        is_listing(one, entries),
        is_listing(other, entries),
    ensures
        one == other,
{
    lemma_listing_prefix(one, other, entries, one.len() as int);
    lemma_listing_prefix(other, one, entries, other.len() as int);
    assert(one.len() == other.len());
    assert forall|i: int| 0 <= i < one.len() implies one[i] == other[i] by {
        assert(one[i].0 == other[i].0);
        assert(entries[one[i].0] == one[i].1);
        assert(entries[other[i].0] == other[i].1);
    }
    assert(one =~= other);
}

/// Two listings of a partition have the same keys at the same places, as far
/// as the first of them goes.
proof fn lemma_listing_prefix(
    one: Seq<(Seq<u8>, Seq<u8>)>,
    other: Seq<(Seq<u8>, Seq<u8>)>,
    entries: Map<Seq<u8>, Seq<u8>>,
    n: int,
)
    requires
        is_listing(one, entries),
        is_listing(other, entries),
        0 <= n <= one.len(),
    ensures
        n <= other.len(),
        forall|i: int| 0 <= i < n ==> (#[trigger] one[i]).0 == other[i].0,
    decreases n,
{
    if n > 0 {
        lemma_listing_prefix(one, other, entries, n - 1);
        let i = n - 1;
        let key = one[i].0;
        assert(entries.contains_key(key));
        let j = choose|j: int| 0 <= j < other.len() && #[trigger] other[j].0 == key;
        if j < i {
            assert(one[j].0 == other[j].0);
            assert(lex_lt(one[j].0, one[i].0));
            lemma_lex_lt_asymmetric(key, key);
        }
        if j > i {
            let back = other[i].0;
            assert(entries.contains_key(back));
            let k = choose|k: int| 0 <= k < one.len() && #[trigger] one[k].0 == back;
            assert(lex_lt(other[i].0, other[j].0));
            if k < i {
                assert(one[k].0 == other[k].0);
                assert(lex_lt(other[k].0, other[i].0));
                lemma_lex_lt_asymmetric(back, back);
            } else if k == i {
                lemma_lex_lt_asymmetric(key, key);
            } else {
                assert(lex_lt(one[i].0, one[k].0));
                lemma_lex_lt_asymmetric(key, back);
            }
        }
        assert(j == i);
    }
}

/// The listing of a partition: its entries in ascending order of their keys.
/// A partition with finitely many entries has one, and only one.
pub open spec fn listing_of(entries: Map<Seq<u8>, Seq<u8>>) -> Seq<(Seq<u8>, Seq<u8>)> {
    choose|listing: Seq<(Seq<u8>, Seq<u8>)>| is_listing(listing, entries)
}

/// A listing of a partition is the listing of it.
pub proof fn lemma_listing_of(listing: Seq<(Seq<u8>, Seq<u8>)>, entries: Map<Seq<u8>, Seq<u8>>)
    requires
        is_listing(listing, entries),
    ensures
        listing_of(entries) == listing,
{
    lemma_listing_unique(listing_of(entries), listing, entries);
}

} // verus!

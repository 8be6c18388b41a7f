//! What holds of the operations together, over the values that their
//! contracts speak of.

use crate::db::contents::Contents;
use crate::db::listing::{is_listing, listing_of};
use crate::model::predicates::{lemma_matching_all, matching, page};
use crate::model::predicates::accepts;
use crate::model::wire::{
    be_bytes, encodable, lemma_id_and_url_round_trip, lemma_key_order, lemma_record_round_trip,
    parse_record,
};
use crate::model::{IdAndUrlView, SearchParamsView, ShortenedView};
use vstd::prelude::*;
use vstd::utf8::encode_utf8;

verus! {

/// In a consistent store every entry can be read: each record by its id,
/// each keyword entry by its keyword.
pub proof fn lemma_consistent_is_readable(c: Contents)
    requires
        c.wf(),
    ensures
        c.readable(),
        forall|id: u64| #[trigger] c.urls.contains_key(be_bytes(id)) ==> c.record(id) is Some,
        forall|keyword: Seq<char>| #[trigger]
            c.keywords.contains_key(encode_utf8(keyword)) ==> c.target(keyword) is Some,
{
    reveal(Contents::wf);
    assert forall|key: Seq<u8>| #[trigger] c.urls.contains_key(key) implies parse_record(
        c.urls[key],
    ) is Some by {
        assert(c.sound_at(key));
    }
    assert forall|id: u64| #[trigger] c.urls.contains_key(be_bytes(id)) implies c.record(
        id,
    ) is Some by {
        assert(c.sound_at(be_bytes(id)));
    }
}

/// In a consistent store a record is stored under its own id, which has
/// been handed out, and its keyword leads to it.
pub proof fn lemma_record_is_indexed(c: Contents, id: u64)
    requires
        c.wf(),
        c.urls.contains_key(be_bytes(id)),
    ensures
        c.record(id) matches Some(r) && r.id == id && c.target(r.keyword) == Some(
            IdAndUrlView { id, url: r.url },
        ),
        id < c.next_id,
{
    reveal(Contents::wf);
    assert(c.sound_at(be_bytes(id)));
    let r = c.record(id).unwrap();
    lemma_key_order(id, r.id);
}

/// Uniqueness of keywords: in a consistent store two records with different
/// ids have different keywords.
pub proof fn lemma_keywords_are_unique(c: Contents, a: u64, b: u64)
    requires
        c.wf(),
        c.urls.contains_key(be_bytes(a)),
        c.urls.contains_key(be_bytes(b)),
        a != b,
    ensures
        c.record(a).unwrap().keyword != c.record(b).unwrap().keyword,
{
    lemma_record_is_indexed(c, a);
    lemma_record_is_indexed(c, b);
}

/// After an insertion the keyword is taken, so that a second insertion of it
/// is refused, and it leads to the URL of the first, also once the refused
/// insertion has spent its id.
pub proof fn lemma_insert_takes_keyword(
    c: Contents,
    keyword: Seq<char>,
    url: Seq<char>,
    title: Option<Seq<char>>,
)
    requires
        encode_utf8(url).len() <= u64::MAX,
    ensures
        c.inserted(keyword, url, title).keywords.contains_key(encode_utf8(keyword)),
        c.inserted(keyword, url, title).target(keyword) == Some(
            IdAndUrlView { id: c.next_id, url },
        ),
        c.inserted(keyword, url, title).bumped().target(keyword) == Some(
            IdAndUrlView { id: c.next_id, url },
        ),
{
    lemma_id_and_url_round_trip(IdAndUrlView { id: c.next_id, url }, Seq::empty());
}

/// After an insertion the record is found under its id as it was given.
pub proof fn lemma_insert_then_find(
    c: Contents,
    keyword: Seq<char>,
    url: Seq<char>,
    title: Option<Seq<char>>,
)
    requires
        encodable(ShortenedView { id: c.next_id, keyword, url, title }),
    ensures
        c.inserted(keyword, url, title).record(c.next_id) == Some(
            ShortenedView { id: c.next_id, keyword, url, title },
        ),
{
    lemma_record_round_trip(
        ShortenedView { id: c.next_id, keyword, url, title },
        Seq::empty(),
    );
}

/// Ids are not handed out twice: an insertion spends its id whether it
/// succeeds or is refused, and a deletion does not give an id back.
pub proof fn lemma_ids_are_spent(
    c: Contents,
    keyword: Seq<char>,
    url: Seq<char>,
    title: Option<Seq<char>>,
    id: u64,
)
    ensures
        c.next_id < u64::MAX ==> c.bumped().next_id == c.next_id + 1,
        c.inserted(keyword, url, title).next_id == c.bumped().next_id,
        c.deleted(id).next_id == c.next_id,
        c.wf() && c.urls.contains_key(be_bytes(id)) ==> id < c.next_id,
{
    if c.wf() && c.urls.contains_key(be_bytes(id)) {
        lemma_record_is_indexed(c, id);
    }
}

/// Delete, then look up: once a record is deleted, neither its id nor its
/// keyword is stored.
pub proof fn lemma_delete_then_lookup(c: Contents, id: u64)
    requires
        c.urls.contains_key(be_bytes(id)),
        c.record(id) is Some,
    ensures
        !c.deleted(id).urls.contains_key(be_bytes(id)),
        c.deleted(id).record(id) is None,
        !c.deleted(id).keywords.contains_key(encode_utf8(c.record(id).unwrap().keyword)),
        c.deleted(id).target(c.record(id).unwrap().keyword) is None,
{
}

/// Deleting an id that is not stored changes nothing.
pub proof fn lemma_delete_absent(c: Contents, id: u64)
    requires
        !c.urls.contains_key(be_bytes(id)),
    ensures
        c.deleted(id) == c,
{
}

/// Deleting a record leaves every other record and every other keyword as
/// they were.
pub proof fn lemma_delete_keeps_others(c: Contents, id: u64, other: u64)
    requires
        c.wf(),
        other != id,
    ensures
        c.deleted(id).record(other) == c.record(other),
        c.record(other) matches Some(r) ==> c.deleted(id).target(r.keyword) == c.target(r.keyword),
{
    lemma_key_order(id, other);
    if c.urls.contains_key(be_bytes(id)) && c.urls.contains_key(be_bytes(other)) {
        lemma_record_is_indexed(c, id);
        lemma_record_is_indexed(c, other);
    }
    if c.urls.contains_key(be_bytes(id)) {
        lemma_record_is_indexed(c, id);
    }
    if c.urls.contains_key(be_bytes(other)) {
        lemma_record_is_indexed(c, other);
    }
}

/// Order preservation: in a consistent store the records come in ascending
/// order of their ids, whatever the order in which they were inserted, and
/// each stored record is among them.
pub proof fn lemma_records_ascend(c: Contents)
    requires
        c.wf(),
        is_listing(listing_of(c.urls), c.urls),
    ensures
        forall|i: int, j: int|
            0 <= i < j < c.records().len() ==> (#[trigger] c.records()[i]).id < (
            #[trigger] c.records()[j]).id,
        forall|i: int|
            0 <= i < c.records().len() ==> c.record((#[trigger] c.records()[i]).id) == Some(
                c.records()[i],
            ),
        forall|id: u64| #[trigger]
            c.urls.contains_key(be_bytes(id)) ==> exists|i: int|
                0 <= i < c.records().len() && Some(#[trigger] c.records()[i]) == c.record(id),
{
    reveal(Contents::wf);
    let listing = listing_of(c.urls);
    let records = c.records();
    assert forall|i: int| 0 <= i < records.len() implies listing[i].0 == be_bytes(
        (#[trigger] records[i]).id,
    ) && c.record(records[i].id) == Some(records[i]) by {
        assert(c.urls.contains_key(listing[i].0));
        assert(c.sound_at(listing[i].0));
    }
    assert forall|i: int, j: int| 0 <= i < j < records.len() implies (#[trigger] records[i]).id < (
    #[trigger] records[j]).id by {
        assert(listing[i].0 == be_bytes(records[i].id));
        assert(listing[j].0 == be_bytes(records[j].id));
        lemma_key_order(records[i].id, records[j].id);
    }
    assert forall|id: u64| #[trigger] c.urls.contains_key(be_bytes(id)) implies exists|i: int|
        0 <= i < records.len() && Some(#[trigger] records[i]) == c.record(id) by {
        let i = choose|i: int| 0 <= i < listing.len() && #[trigger] listing[i].0 == be_bytes(id);
        assert(c.sound_at(listing[i].0));
        assert(Some(records[i]) == c.record(id));
    }
}

/// A search for everything, with the empty term from the start and a page
/// that is long enough, gives every stored record, in ascending order of the
/// ids.
pub proof fn lemma_search_for_all_ascends(c: Contents, params: SearchParamsView)
    requires
        c.wf(),
        is_listing(listing_of(c.urls), c.urls),
        params.term.len() == 0,
        params.start == 0,
        params.page_size >= c.records().len(),
    ensures
        page(c.records(), params) == c.records(),
        forall|i: int, j: int|
            0 <= i < j < c.records().len() ==> (#[trigger] c.records()[i]).id < (
            #[trigger] c.records()[j]).id,
        forall|id: u64| #[trigger]
            c.urls.contains_key(be_bytes(id)) ==> exists|i: int|
                0 <= i < c.records().len() && Some(#[trigger] c.records()[i]) == c.record(id),
{
    lemma_records_ascend(c);
    lemma_matching_all(c.records(), params.term);
    lemma_page_bounds(c.records(), params);
}

/// An insertion into a consistent store adds one key to each index, and
/// both keys were free; every other entry stays as it was.
pub proof fn lemma_insert_adds_one_key_each(
    c: Contents,
    keyword: Seq<char>,
    url: Seq<char>,
    title: Option<Seq<char>>,
)
    requires
        c.wf(),
        !c.keywords.contains_key(encode_utf8(keyword)),
    ensures
        !c.urls.contains_key(be_bytes(c.next_id)),
        c.inserted(keyword, url, title).urls.dom() == c.urls.dom().insert(be_bytes(c.next_id)),
        c.inserted(keyword, url, title).keywords.dom() == c.keywords.dom().insert(
            encode_utf8(keyword),
        ),
        forall|key: Seq<u8>| #[trigger]
            c.urls.contains_key(key) ==> c.inserted(keyword, url, title).urls[key] == c.urls[key],
        forall|key: Seq<u8>| #[trigger]
            c.keywords.contains_key(key) ==> c.inserted(keyword, url, title).keywords[key]
                == c.keywords[key],
{
    if c.urls.contains_key(be_bytes(c.next_id)) {
        lemma_record_is_indexed(c, c.next_id);
    }
    let after = c.inserted(keyword, url, title);
    assert(after.urls.dom() =~= c.urls.dom().insert(be_bytes(c.next_id)));
    assert(after.keywords.dom() =~= c.keywords.dom().insert(encode_utf8(keyword)));
}

/// A page holds no more records than were asked for, all of them pass the
/// filter, and a page that starts at 0 and is long enough holds every record
/// that passes.
pub proof fn lemma_page_bounds(records: Seq<ShortenedView>, params: SearchParamsView)
    ensures
        page(records, params).len() <= params.page_size,
        page(records, params).len() <= matching(records, params.term).len(),
        forall|i: int|
            0 <= i < page(records, params).len() ==> accepts(
                params.term,
                #[trigger] page(records, params)[i],
            ),
        params.start == 0 && params.page_size >= matching(records, params.term).len() ==> page(
            records,
            params,
        ) == matching(records, params.term),
{
    let accepted = |var: ShortenedView| accepts(params.term, var);
    let found = matching(records, params.term);
    let shown = page(records, params);
    assert forall|i: int| 0 <= i < shown.len() implies accepts(
        params.term,
        #[trigger] shown[i],
    ) by {
        let from = if params.start <= found.len() {
            params.start as int
        } else {
            found.len() as int
        };
        records.lemma_filter_pred(accepted, from + i);
        assert(shown[i] == found[from + i]);
    }
    if params.start == 0 && params.page_size >= found.len() {
        assert(found.subrange(0, found.len() as int) == found);
    }
}

/// Pagination: a page and the page that starts where it ends are, one after
/// the other, the page of both sizes together.
pub proof fn lemma_pages_join(
    records: Seq<ShortenedView>,
    term: Seq<char>,
    start: usize,
    first: usize,
    second: usize,
)
    requires
        start + first + second <= usize::MAX,
    ensures
        page(records, SearchParamsView { start, page_size: first, term }) + page(
            records,
            SearchParamsView { start: (start + first) as usize, page_size: second, term },
        ) == page(records, SearchParamsView { start, page_size: (first + second) as usize, term }),
{
    let one = page(records, SearchParamsView { start, page_size: first, term });
    let two = page(
        records,
        SearchParamsView { start: (start + first) as usize, page_size: second, term },
    );
    let both = page(records, SearchParamsView { start, page_size: (first + second) as usize, term });
    assert(one + two =~= both);
}

} // verus!

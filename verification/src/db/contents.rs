//! What a store holds, as a mathematical value, and how the operations
//! change it.

use crate::db::listing::listing_of;
use crate::model::wire::{
    be_bytes, encodable, id_and_url_bytes, lemma_id_and_url_round_trip, lemma_key_order,
    lemma_record_round_trip, parse_id_and_url, parse_record, record_bytes,
};
use crate::model::{IdAndUrlView, ShortenedView};
use vstd::prelude::*;
use vstd::utf8::encode_utf8;

verus! {

/// What a store holds: the primary index, from the key of an id to the stored
/// record; the keyword index, from a keyword's UTF-8 bytes to the stored id
/// and URL; and the id that the next record will get.
pub struct Contents {
    pub urls: Map<Seq<u8>, Seq<u8>>,
    pub keywords: Map<Seq<u8>, Seq<u8>>,
    pub next_id: u64,
}

/// The records that the entries of `listing` hold, in their order.
pub open spec fn records_of(listing: Seq<(Seq<u8>, Seq<u8>)>) -> Seq<ShortenedView> {
    listing.map_values(|entry: (Seq<u8>, Seq<u8>)| parse_record(entry.1).unwrap())
}

impl Contents {
    /// Every entry of the primary index can be read as a record.
    pub open spec fn readable(self) -> bool {
        forall|key: Seq<u8>| #[trigger]
            self.urls.contains_key(key) ==> parse_record(self.urls[key]) is Some
    }

    /// The records of the primary index, in ascending order of their keys.
    pub open spec fn records(self) -> Seq<ShortenedView> {
        records_of(listing_of(self.urls))
    }

    /// The record stored under `id`, if one is stored and can be read.
    pub open spec fn record(self, id: u64) -> Option<ShortenedView> {
        if self.urls.contains_key(be_bytes(id)) {
            parse_record(self.urls[be_bytes(id)])
        } else {
            None
        }
    }

    /// The keyword-index entry of `keyword`, if one is stored and can be read.
    pub open spec fn target(self, keyword: Seq<char>) -> Option<IdAndUrlView> {
        if self.keywords.contains_key(encode_utf8(keyword)) {
            parse_id_and_url(self.keywords[encode_utf8(keyword)])
        } else {
            None
        }
    }

    /// What is stored under the primary key `key` is a record with that key,
    /// its id has been handed out, and the keyword index maps its keyword to
    /// its id and URL.
    pub open spec fn sound_at(self, key: Seq<u8>) -> bool {
        &&& parse_record(self.urls[key]) matches Some(r)
        &&& key == be_bytes(r.id)
        &&& r.id < self.next_id
        &&& self.target(r.keyword) == Some(IdAndUrlView { id: r.id, url: r.url })
    }

    /// What is stored under the key `key` of the keyword index is the id and
    /// the URL of a stored record with that keyword.
    pub open spec fn backed_at(self, key: Seq<u8>) -> bool {
        &&& parse_id_and_url(self.keywords[key]) matches Some(e)
        &&& self.record(e.id) matches Some(r)
        &&& encode_utf8(r.keyword) == key
        &&& r.url == e.url
    }

    /// Every keyword entry has its record. An insertion that the storage
    /// engine cut short may leave an entry that has none; nothing else does.
    pub open spec fn complete(self) -> bool {
        forall|key: Seq<u8>| #[trigger] self.keywords.contains_key(key) ==> self.backed_at(key)
    }

    /// The two indexes are consistent: every primary entry is sound, and
    /// every keyword entry can be read. A keyword entry without a record is
    /// allowed: an insertion that was cut short leaves one.
    #[verifier::opaque]
    pub open spec fn wf(self) -> bool {
        &&& forall|key: Seq<u8>| #[trigger] self.urls.contains_key(key) ==> self.sound_at(key)
        &&& forall|key: Seq<u8>| #[trigger]
            self.keywords.contains_key(key) ==> parse_id_and_url(self.keywords[key]) is Some
    }

    /// The id counter moved on by one.
    pub open spec fn bumped(self) -> Contents {
        Contents {
            next_id: if self.next_id == u64::MAX {
                0
            } else {
                (self.next_id + 1) as u64
            },
            ..self
        }
    }

    /// The keyword index maps `keyword` to `id` and `url`.
    pub open spec fn with_keyword(self, keyword: Seq<char>, id: u64, url: Seq<char>) -> Contents {
        Contents {
            keywords: self.keywords.insert(
                encode_utf8(keyword),
                id_and_url_bytes(IdAndUrlView { id, url }),
            ),
            ..self
        }
    }

    /// The primary index holds `r` under its id.
    pub open spec fn with_record(self, r: ShortenedView) -> Contents {
        Contents { urls: self.urls.insert(be_bytes(r.id), record_bytes(r)), ..self }
    }

    /// The primary index has no entry for `id`.
    pub open spec fn without_record(self, id: u64) -> Contents {
        Contents { urls: self.urls.remove(be_bytes(id)), ..self }
    }

    /// The keyword index has no entry for `keyword`.
    pub open spec fn without_keyword(self, keyword: Seq<char>) -> Contents {
        Contents { keywords: self.keywords.remove(encode_utf8(keyword)), ..self }
    }

    /// The store after a record with the next id was inserted.
    pub open spec fn inserted(self, keyword: Seq<char>, url: Seq<char>, title: Option<Seq<char>>) -> Contents {
        self.bumped().with_keyword(keyword, self.next_id, url).with_record(
            ShortenedView { id: self.next_id, keyword, url, title },
        )
    }

    /// The store after the record under `id` was deleted, with its keyword
    /// entry.
    pub open spec fn deleted(self, id: u64) -> Contents {
        match self.record(id) {
            Some(r) => self.without_keyword(r.keyword).without_record(id),
            None => self,
        }
    }

    /// `after` is where an insertion that the storage engine cut short may
    /// leave the store: the id is spent, and of the two writes, in their
    /// order, none, the first or both were made.
    pub open spec fn cut_short_insert(
        self,
        after: Contents,
        keyword: Seq<char>,
        url: Seq<char>,
        title: Option<Seq<char>>,
    ) -> bool {
        ||| after == self.bumped()
        ||| !self.keywords.contains_key(encode_utf8(keyword)) && after == self.bumped().with_keyword(
            keyword,
            self.next_id,
            url,
        )
        ||| !self.keywords.contains_key(encode_utf8(keyword)) && after == self.inserted(
            keyword,
            url,
            title,
        )
    }

    /// `after` is where a deletion that the storage engine cut short may
    /// leave the store: nothing removed, the record removed, or the record
    /// and its keyword entry removed.
    pub open spec fn cut_short_delete(self, after: Contents, id: u64) -> bool {
        ||| after == self
        ||| self.urls.contains_key(be_bytes(id)) && after == self.without_record(id)
        ||| self.urls.contains_key(be_bytes(id)) && after == self.deleted(id)
    }
}

/// An insertion keeps the indexes consistent, at each point where it may stop.
pub proof fn lemma_insert_keeps_wf(
    c: Contents,
    keyword: Seq<char>,
    url: Seq<char>,
    title: Option<Seq<char>>,
)
    requires
        c.wf(),
        c.next_id < u64::MAX,
        !c.keywords.contains_key(encode_utf8(keyword)),
        encodable(ShortenedView { id: c.next_id, keyword, url, title }),
    ensures
        c.bumped().wf(),
        c.bumped().with_keyword(keyword, c.next_id, url).wf(),
        c.inserted(keyword, url, title).wf(),
        !c.urls.contains_key(be_bytes(c.next_id)),
{
    reveal(Contents::wf);
    let r = ShortenedView { id: c.next_id, keyword, url, title };
    let e = IdAndUrlView { id: c.next_id, url };
    let b = c.bumped();
    let k = b.with_keyword(keyword, c.next_id, url);
    let i = c.inserted(keyword, url, title);
    lemma_record_round_trip(r, Seq::empty());
    lemma_id_and_url_round_trip(e, Seq::empty());
    assert forall|key: Seq<u8>| #[trigger] b.urls.contains_key(key) implies b.sound_at(key) by {
        assert(c.sound_at(key));
    }
    assert forall|key: Seq<u8>| #[trigger] k.urls.contains_key(key) implies k.sound_at(key) by {
        assert(c.sound_at(key));
    }
    assert forall|key: Seq<u8>| #[trigger] i.urls.contains_key(key) implies i.sound_at(key) by {
        if key != be_bytes(r.id) {
            assert(c.sound_at(key));
        }
    }
    if c.urls.contains_key(be_bytes(c.next_id)) {
        assert(c.sound_at(be_bytes(c.next_id)));
        lemma_key_order(c.next_id, parse_record(c.urls[be_bytes(c.next_id)]).unwrap().id);
    }
}

/// An insertion that succeeds, and one that is refused, leave no keyword
/// entry without its record where there was none.
pub proof fn lemma_insert_keeps_complete(
    c: Contents,
    keyword: Seq<char>,
    url: Seq<char>,
    title: Option<Seq<char>>,
)
    requires
        c.wf(),
        c.complete(),
        c.next_id < u64::MAX,
        encodable(ShortenedView { id: c.next_id, keyword, url, title }),
    ensures
        c.bumped().complete(),
        !c.keywords.contains_key(encode_utf8(keyword)) ==> c.inserted(keyword, url, title).complete(),
{
    reveal(Contents::wf);
    let r = ShortenedView { id: c.next_id, keyword, url, title };
    let e = IdAndUrlView { id: c.next_id, url };
    let b = c.bumped();
    let i = c.inserted(keyword, url, title);
    lemma_record_round_trip(r, Seq::empty());
    lemma_id_and_url_round_trip(e, Seq::empty());
    assert forall|key: Seq<u8>| #[trigger] b.keywords.contains_key(key) implies b.backed_at(key) by {
        assert(c.backed_at(key));
    }
    if !c.keywords.contains_key(encode_utf8(keyword)) {
        assert forall|key: Seq<u8>| #[trigger] i.keywords.contains_key(key) implies i.backed_at(
            key,
        ) by {
            if key != encode_utf8(keyword) {
                assert(c.backed_at(key));
                let old_entry = parse_id_and_url(c.keywords[key]).unwrap();
                assert(c.urls.contains_key(be_bytes(old_entry.id)));
                assert(c.sound_at(be_bytes(old_entry.id)));
                lemma_key_order(old_entry.id, c.next_id);
                lemma_key_order(
                    old_entry.id,
                    parse_record(c.urls[be_bytes(old_entry.id)]).unwrap().id,
                );
            }
        }
    }
}

/// A deletion leaves no keyword entry without its record where there was
/// none.
pub proof fn lemma_delete_keeps_complete(c: Contents, id: u64)
    requires
        c.wf(),
        c.complete(),
    ensures
        c.deleted(id).complete(),
{
    reveal(Contents::wf);
    let d = c.deleted(id);
    assert forall|key: Seq<u8>| #[trigger] d.keywords.contains_key(key) implies d.backed_at(key) by {
        assert(c.backed_at(key));
        let entry = parse_id_and_url(c.keywords[key]).unwrap();
        if c.urls.contains_key(be_bytes(id)) {
            assert(c.sound_at(be_bytes(id)));
            lemma_key_order(entry.id, id);
        }
    }
}

/// Spending an id keeps the indexes consistent, as long as there is a next
/// id.
pub proof fn lemma_bump_keeps_wf(c: Contents)
    requires
        c.wf(),
        c.next_id < u64::MAX,
    ensures
        c.bumped().wf(),
{
    reveal(Contents::wf);
    let b = c.bumped();
    assert forall|key: Seq<u8>| #[trigger] b.urls.contains_key(key) implies b.sound_at(key) by {
        assert(c.sound_at(key));
    }
}

/// A deletion keeps the indexes consistent, at each point where it may stop.
pub proof fn lemma_delete_keeps_wf(c: Contents, id: u64)
    requires
        c.wf(),
    ensures
        c.without_record(id).wf(),
        c.deleted(id).wf(),
{
    reveal(Contents::wf);
    let w = c.without_record(id);
    let d = c.deleted(id);
    assert forall|key: Seq<u8>| #[trigger] w.urls.contains_key(key) implies w.sound_at(key) by {
        assert(c.sound_at(key));
    }
    assert forall|key: Seq<u8>| #[trigger] d.urls.contains_key(key) implies d.sound_at(key) by {
        assert(c.sound_at(key));
        if c.urls.contains_key(be_bytes(id)) {
            assert(c.sound_at(be_bytes(id)));
        }
    }
}

} // verus!

//! The store and its operations.
//!
//! A store holds two indexes: the primary index, from an id to its record,
//! and the keyword index, from a keyword to the id and the URL of its record.
//! [`Contents`] is what a store holds as a mathematical value, and
//! [`Contents::wf`] says when the two indexes are consistent: every record
//! stands under the key of its own id, that id has been handed out, and the
//! keyword index leads from the record's keyword to it. A store that this
//! library alone has written is consistent, every operation keeps it so while
//! the store has ids left, and [`Db::audit`] finds out whether one is. The
//! lookups rely on it: they are not meant for a store in which a value cannot
//! be read.
//!
//! The operations that change the store take it by `&mut`: what the contracts
//! say of its contents holds because nothing else changes it meanwhile.

pub mod config;
pub mod contents;
pub mod engine;
pub mod laws;
pub mod listing;
pub mod outcome;

pub use config::Config;
pub use contents::Contents;
pub use outcome::{claimed_keyword, found_keyword, found_url, removed_record};

use crate::model::predicates::{
    lemma_full_page, lemma_step, page, page_step, progress, views,
};
use crate::model::wire;
use crate::model::{IdAndUrl, IdAndUrlView, SearchParams, Shortened, ShortenedView};
use crate::Error;
use contents::records_of;
use vstd::prelude::*;
use vstd::utf8::encode_utf8;

verus! {

/// The name of the primary index: from the key of an id to the record.
pub open spec fn tree_urls() -> Seq<char> {
    "urls"@
}

/// The name of the keyword index: from a keyword to its id and URL.
pub open spec fn tree_keywords() -> Seq<char> {
    "keywords"@
}

/// A store of records, each reachable by its id and by its keyword.
pub struct Db {
    db: sled::Db,
    config: Config,
}

impl View for Db {
    type V = Contents;

    closed spec fn view(&self) -> Contents {
        Contents {
            urls: engine::partition(self.db, tree_urls()),
            keywords: engine::partition(self.db, tree_keywords()),
            next_id: engine::next_id(self.db),
        }
    }
}

/// The value of an optional string slice.
pub open spec fn option_view(s: Option<&str>) -> Option<Seq<char>> {
    match s {
        Some(t) => Some(t@),
        None => None,
    }
}

impl Db {
    /// The configuration that the store was opened with.
    pub closed spec fn spec_config(&self) -> Config {
        self.config
    }

    /// The configuration that the store was opened with.
    pub fn config(&self) -> (r: &Config)
        ensures
            *r == self.spec_config(),
    {
        &self.config
    }

    /// Opens the store that `config` names, creating it where there is none.
    pub fn init(config: &Config) -> (r: Result<Db, Error>)
        ensures
            match r {
                Ok(db) => db.spec_config() == *config,
                Err(e) => e is DbError,
            },
    {
        match engine::open_store(config.path.as_str(), config.temporary) {
            Ok(db) => Ok(Db { db, config: config.clone() }),
            Err(e) => Err(Error::from(e)),
        }
    }

    fn find_idandurl_by_keyword(&self, keyword: &str) -> (r: Result<IdAndUrl, Error>)
        requires
            self@.keywords.contains_key(encode_utf8(keyword@)) ==> self@.target(keyword@) is Some,
        ensures
            match r {
                Ok(e) => self@.target(keyword@) == Some(e@),
                Err(Error::KeywordDoesNotExist(k)) => k@ == keyword@ && !self@.keywords.contains_key(
                    encode_utf8(keyword@),
                ),
                Err(Error::DbError(_)) => true,
                Err(_) => false,
            },
    {
        let read = engine::get(&self.db, "keywords", keyword.as_bytes());
        found_keyword(keyword, read)
    }

    /// The URL that `keyword` stands for, from the keyword index alone.
    pub fn find_url_by_keyword(&self, keyword: &str) -> (r: Result<String, Error>)
        requires
            self@.keywords.contains_key(encode_utf8(keyword@)) ==> self@.target(keyword@) is Some,
        ensures
            match r {
                Ok(url) => self@.target(keyword@) matches Some(e) && e.url == url@,
                Err(Error::KeywordDoesNotExist(k)) => k@ == keyword@ && !self@.keywords.contains_key(
                    encode_utf8(keyword@),
                ),
                Err(Error::DbError(_)) => true,
                Err(_) => false,
            },
    {
        match self.find_idandurl_by_keyword(keyword) {
            Ok(entry) => Ok(entry.url),
            Err(e) => Err(e),
        }
    }

    /// The record with this id.
    pub fn find_url(&self, id: u64) -> (r: Result<Shortened, Error>)
        requires
            self@.urls.contains_key(wire::be_bytes(id)) ==> self@.record(id) is Some,
        ensures
            match r {
                Ok(s) => self@.record(id) == Some(s@),
                Err(Error::UrlDoesNotExist(i)) => i == id && !self@.urls.contains_key(
                    wire::be_bytes(id),
                ),
                Err(Error::DbError(_)) => true,
                Err(_) => false,
            },
    {
        let dbid = Shortened::db_id(id);
        let read = engine::get(&self.db, "urls", dbid.as_slice());
        found_url(id, read)
    }

    /// Whether every entry of the keyword index can be read.
    fn keywords_readable(&self) -> (r: Result<bool, Error>)
        ensures
            match r {
                Ok(readable) => readable == (forall|key: Seq<u8>| #[trigger]
                    self@.keywords.contains_key(key) ==> wire::parse_id_and_url(
                        self@.keywords[key],
                    ) is Some),
                Err(e) => e is DbError,
            },
    {
        let mut cursor = match engine::scan(&self.db, "keywords") {
            Ok(cursor) => cursor,
            Err(e) => {
                return Err(Error::from(e));
            },
        };
        let ghost listing = engine::remaining(cursor.entries);
        let ghost done: int = 0;
        loop
            invariant_except_break
                engine::remaining(cursor.entries) == listing.skip(done),
            invariant
                listing::is_listing(listing, self@.keywords),
                0 <= done <= listing.len(),
                forall|i: int|
                    0 <= i < done ==> wire::parse_id_and_url((#[trigger] listing[i]).1) is Some,
            ensures
                done == listing.len(),
            decreases listing.len() - done,
        {
            let entry = match engine::next_entry(&mut cursor) {
                None => {
                    break ;
                },
                Some(Err(e)) => {
                    return Err(Error::from(e));
                },
                Some(Ok(entry)) => entry,
            };
            proof {
                assert(listing.skip(done)[0] == listing[done]);
                assert(listing.skip(done).drop_first() == listing.skip(done + 1));
                assert(self@.keywords.contains_key(listing[done].0));
            }
            if IdAndUrl::decode(entry.1.as_slice()).is_none() {
                return Ok(false);
            }
            proof {
                done = done + 1;
            }
        }
        Ok(true)
    }

    /// Whether the primary entry `entry` is sound in a store whose next id is
    /// `next`: a record under the key of its id, which is below `next`, with
    /// its keyword entry in the keyword index.
    fn entry_sound(&self, entry: &(Vec<u8>, Vec<u8>), next: u64) -> (r: Result<bool, Error>)
        requires
            self@.urls.contains_key(entry.0@),
            self@.urls[entry.0@] == entry.1@,
        ensures
            match r {
                Ok(sound) => sound == (Contents { next_id: next, ..self@ }).sound_at(entry.0@),
                Err(e) => e is DbError,
            },
    {
        let record = match Shortened::decode(entry.1.as_slice()) {
            Some(record) => record,
            None => {
                return Ok(false);
            },
        };
        let dbid = Shortened::db_id(record.id);
        if !wire::bytes_equal(dbid.as_slice(), entry.0.as_slice()) {
            return Ok(false);
        }
        if record.id >= next {
            return Ok(false);
        }
        let read = match engine::get(&self.db, "keywords", record.keyword.as_str().as_bytes()) {
            Ok(read) => read,
            Err(e) => {
                return Err(Error::from(e));
            },
        };
        let data = match read {
            Some(data) => data,
            None => {
                return Ok(false);
            },
        };
        match IdAndUrl::decode(data.as_slice()) {
            Some(target) => Ok(target.id == record.id && target.url == record.url),
            None => Ok(false),
        }
    }

    /// Whether the two indexes are consistent and the store has ids left. A
    /// store that this library alone has written is consistent. Both indexes
    /// are read through, and one id is spent: the store tells its next id
    /// only by handing it out.
    pub fn audit(&mut self) -> (r: Result<bool, Error>)
        ensures
            final(self)@ == old(self)@.bumped(),
            final(self).spec_config() == old(self).spec_config(),
            match r {
                Ok(sound) => {
                    &&& sound == (old(self)@.wf() && old(self)@.next_id < u64::MAX)
                    &&& sound ==> final(self)@.wf() && listing::is_listing(
                        listing::listing_of(final(self)@.urls),
                        final(self)@.urls,
                    )
                },
                Err(e) => e is DbError,
            },
    {
        let ghost before = self@;
        let issued = engine::generate_id(&mut self.db);
        proof {
            assert(self@.urls == before.urls);
            assert(self@.keywords == before.keywords);
            assert(self@ == before.bumped());
            if before.wf() && before.next_id < u64::MAX {
                contents::lemma_bump_keeps_wf(before);
            }
        }
        let next = match issued {
            Ok(next) => next,
            Err(e) => {
                return Err(Error::from(e));
            },
        };
        if next == u64::MAX {
            return Ok(false);
        }
        self.consistent_below(next)
    }

    /// Whether the two indexes would be consistent in a store whose next id
    /// is `next`.
    fn consistent_below(&self, next: u64) -> (r: Result<bool, Error>)
        ensures
            match r {
                Ok(sound) => {
                    &&& sound == (Contents { next_id: next, ..self@ }).wf()
                    &&& sound ==> listing::is_listing(listing::listing_of(self@.urls), self@.urls)
                },
                Err(e) => e is DbError,
            },
    {
        let ghost asked = Contents { next_id: next, ..self@ };
        proof {
            reveal(Contents::wf);
        }
        match self.keywords_readable() {
            Ok(true) => {},
            Ok(false) => {
                return Ok(false);
            },
            Err(e) => {
                return Err(e);
            },
        }
        let mut cursor = match engine::scan(&self.db, "urls") {
            Ok(cursor) => cursor,
            Err(e) => {
                return Err(Error::from(e));
            },
        };
        let ghost listing = engine::remaining(cursor.entries);
        proof {
            listing::lemma_listing_of(listing, self@.urls);
        }
        let ghost done: int = 0;
        loop
            invariant_except_break
                engine::remaining(cursor.entries) == listing.skip(done),
            invariant
                asked == (Contents { next_id: next, ..self@ }),
                listing::is_listing(listing, self@.urls),
                0 <= done <= listing.len(),
                forall|i: int| 0 <= i < done ==> asked.sound_at((#[trigger] listing[i]).0),
            ensures
                done == listing.len(),
            decreases listing.len() - done,
        {
            let entry = match engine::next_entry(&mut cursor) {
                None => {
                    break ;
                },
                Some(Err(e)) => {
                    return Err(Error::from(e));
                },
                Some(Ok(entry)) => entry,
            };
            proof {
                assert(listing.skip(done)[0] == listing[done]);
                assert(listing.skip(done).drop_first() == listing.skip(done + 1));
                assert(self@.urls.contains_key(listing[done].0));
            }
            match self.entry_sound(&entry, next) {
                Ok(true) => {},
                Ok(false) => {
                    proof {
                        reveal(Contents::wf);
                        assert(asked.urls.contains_key(entry.0@) && !asked.sound_at(entry.0@));
                    }
                    return Ok(false);
                },
                Err(e) => {
                    return Err(e);
                },
            }
            proof {
                done = done + 1;
            }
        }
        Ok(true)
    }

    /// A page of the records that pass the filter of `params`, in ascending
    /// order of their ids: the matching records from position `start` on,
    /// `page_size` of them at most. The scan stops when the page is full.
    pub fn search(&self, params: &SearchParams) -> (r: Result<Vec<Shortened>, Error>)
        requires
            self@.readable(),
        ensures
            match r {
                Ok(found) => {
                    &&& views(found@) == page(self@.records(), params@)
                    &&& found@.len() <= params.page_size
                    &&& listing::is_listing(listing::listing_of(self@.urls), self@.urls)
                },
                Err(e) => e is DbError,
            },
    {
        let mut cursor = match engine::scan(&self.db, "urls") {
            Ok(cursor) => cursor,
            Err(e) => {
                return Err(Error::from(e));
            },
        };
        let ghost listing = engine::remaining(cursor.entries);
        let ghost all = records_of(listing);
        proof {
            listing::lemma_listing_of(listing, self@.urls);
        }
        let ghost done: int = 0;
        let mut skipped: usize = 0;
        let mut found: Vec<Shortened> = Vec::new();
        proof {
            assert(all.take(0) == Seq::<ShortenedView>::empty());
            assert(views(found@) == page(all.take(0), params@));
        }
        loop
            invariant_except_break
                engine::remaining(cursor.entries) == listing.skip(done),
            invariant
                self@.readable(),
                listing::is_listing(listing, self@.urls),
                all == records_of(listing),
                0 <= done <= listing.len(),
                (skipped, views(found@)) == progress(all.take(done), params@),
                found@.len() == views(found@).len() <= params.page_size,
            ensures
                found@.len() == params.page_size || done == listing.len(),
                found@.len() == views(found@).len(),
                0 <= done <= listing.len(),
                views(found@) == page(all.take(done), params@),
            decreases listing.len() - done,
        {
            if found.len() >= params.page_size {
                break ;
            }
            let entry = match engine::next_entry(&mut cursor) {
                None => {
                    break ;
                },
                Some(Err(e)) => {
                    return Err(Error::from(e));
                },
                Some(Ok(entry)) => entry,
            };
            proof {
                assert(listing.skip(done)[0] == listing[done]);
                assert(listing.skip(done).drop_first() == listing.skip(done + 1));
                assert(self@.urls.contains_key(listing[done].0));
            }
            let record = Shortened::from_ivec(entry.1);
            proof {
                assert(all[done] == record@);
                assert(all.take(done + 1) == all.take(done).push(record@));
                lemma_step(all.take(done), params@, record@);
                done = done + 1;
            }
            page_step(params, &mut skipped, &mut found, record);
        }
        proof {
            if done == listing.len() {
                assert(all.take(done) == all);
            } else {
                lemma_full_page(all, done, params@);
            }
        }
        Ok(found)
    }

    /// Deletes the record with this id and its keyword entry, in one
    /// transaction. `Ok(false)`: there is no such record, and nothing changed.
    pub fn delete_url(&mut self, id: u64) -> (r: Result<bool, Error>)
        requires
            old(self)@.urls.contains_key(wire::be_bytes(id)) ==> old(self)@.record(id) is Some,
        ensures
            match r {
                Ok(true) => old(self)@.urls.contains_key(wire::be_bytes(id)) && final(self)@ == old(
                    self,
                )@.deleted(id),
                Ok(false) => !old(self)@.urls.contains_key(wire::be_bytes(id)) && final(self)@ == old(
                    self,
                )@,
                Err(Error::DbError(_)) => old(self)@.cut_short_delete(final(self)@, id),
                Err(_) => false,
            },
            old(self)@.wf() ==> final(self)@.wf(),
            old(self)@.wf() && old(self)@.complete() && r is Ok ==> final(self)@.complete(),
            final(self).spec_config() == old(self).spec_config(),
    {
        proof {
            lemma_names_differ();
            if self@.wf() {
                contents::lemma_delete_keeps_wf(self@, id);
                if self@.complete() {
                    contents::lemma_delete_keeps_complete(self@, id);
                }
            }
        }
        let ghost before = self@;
        let dbid = Shortened::db_id(id);
        let record = match engine::get(&self.db, "urls", dbid.as_slice()) {
            Ok(Some(data)) => Shortened::from_ivec(data),
            Ok(None) => {
                return Ok(false);
            },
            Err(e) => {
                return Err(Error::from(e));
            },
        };
        assert(before.record(id) == Some(record@));
        let done = engine::remove_both(
            &mut self.db,
            "urls",
            dbid.as_slice(),
            "keywords",
            record.keyword.as_str().as_bytes(),
        );
        proof {
            let after = self@;
            assert(after.next_id == before.next_id);
            if done is Ok {
                assert(after.urls == before.urls.remove(wire::be_bytes(id)));
                assert(after.keywords == before.keywords.remove(encode_utf8(record@.keyword)));
                assert(after == before.deleted(id));
            } else {
                if after.urls == before.urls {
                    assert(after.keywords == before.keywords);
                    assert(after == before);
                } else if after.keywords == before.keywords {
                    assert(after == before.without_record(id));
                } else {
                    assert(after == before.deleted(id));
                }
            }
        }
        removed_record(done)
    }

    /// Stores a new record under the next id. The keyword must be free: where
    /// a record has it already, the id is spent and nothing else changes.
    pub fn insert_url(&mut self, keyword: &str, url: &str, title: Option<&str>) -> (r: Result<
        Shortened,
        Error,
    >)
        ensures
            match r {
                Ok(s) => {
                    &&& s@ == (ShortenedView {
                        id: old(self)@.next_id,
                        keyword: keyword@,
                        url: url@,
                        title: option_view(title),
                    })
                    &&& !old(self)@.keywords.contains_key(encode_utf8(keyword@))
                    &&& final(self)@ == old(self)@.inserted(keyword@, url@, option_view(title))
                    &&& final(self)@.record(s.id) == Some(s@)
                    &&& final(self)@.target(keyword@) == Some(IdAndUrlView { id: s.id, url: url@ })
                    &&& old(self)@.wf() ==> !old(self)@.urls.contains_key(wire::be_bytes(s.id))
                },
                Err(Error::KeywordAlreadyExists(k)) => {
                    &&& k@ == keyword@
                    &&& old(self)@.keywords.contains_key(encode_utf8(keyword@))
                    &&& final(self)@ == old(self)@.bumped()
                },
                Err(Error::DbError(_)) => old(self)@.cut_short_insert(
                    final(self)@,
                    keyword@,
                    url@,
                    option_view(title),
                ),
                Err(_) => false,
            },
            old(self)@.wf() && old(self)@.next_id < u64::MAX ==> final(self)@.wf(),
            old(self)@.wf() && old(self)@.complete() && old(self)@.next_id < u64::MAX && !(r matches Err(
                Error::DbError(_),
            )) ==> final(self)@.complete(),
            final(self).spec_config() == old(self).spec_config(),
    {
        proof {
            lemma_names_differ();
        }
        let ghost before = self@;
        let ghost title_view = option_view(title);
        let issued = engine::generate_id(&mut self.db);
        let ghost spent = self@;
        proof {
            assert(spent.urls == before.urls);
            assert(spent.keywords == before.keywords);
            assert(spent == before.bumped());
            if before.wf() && before.next_id < u64::MAX {
                contents::lemma_bump_keeps_wf(before);
            }
        }
        let id = match issued {
            Ok(id) => id,
            Err(e) => {
                return Err(Error::from(e));
            },
        };
        let new_shortened = Shortened {
            id,
            keyword: keyword.to_owned(),
            url: url.to_owned(),
            title: match title {
                Some(t) => Some(t.to_owned()),
                None => None,
            },
        };
        let new_idkv = IdAndUrl { id, url: url.to_owned() };
        let record_data = new_shortened.to_ivec();
        let entry_data = new_idkv.to_ivec();
        proof {
            assert(new_shortened@ == (ShortenedView {
                id: before.next_id,
                keyword: keyword@,
                url: url@,
                title: title_view,
            }));
            if before.wf() && before.next_id < u64::MAX {
                if !before.keywords.contains_key(encode_utf8(keyword@)) {
                    contents::lemma_insert_keeps_wf(before, keyword@, url@, title_view);
                }
                if before.complete() {
                    contents::lemma_insert_keeps_complete(before, keyword@, url@, title_view);
                }
            }
            if before.wf() && before.urls.contains_key(wire::be_bytes(before.next_id)) {
                laws::lemma_record_is_indexed(before, before.next_id);
            }
            laws::lemma_insert_then_find(before, keyword@, url@, title_view);
            laws::lemma_insert_takes_keyword(before, keyword@, url@, title_view);
        }
        let written = engine::put_if_absent(
            &mut self.db,
            "keywords",
            keyword.as_bytes(),
            entry_data.as_slice(),
        );
        let ghost claimed = self@;
        proof {
            assert(claimed.urls == spent.urls);
            assert(claimed.next_id == spent.next_id);
            if claimed.keywords == spent.keywords {
                assert(claimed == before.bumped());
            } else {
                assert(claimed.keywords == before.keywords.insert(
                    encode_utf8(keyword@),
                    wire::id_and_url_bytes(new_idkv@),
                ));
                assert(claimed == before.bumped().with_keyword(keyword@, before.next_id, url@));
            }
        }
        match claimed_keyword(keyword, written) {
            Ok(_) => {},
            Err(e) => {
                return Err(e);
            },
        }
        let dbid = Shortened::db_id(id);
        let stored = engine::put(&mut self.db, "urls", dbid.as_slice(), record_data.as_slice());
        proof {
            let after = self@;
            assert(after.keywords == claimed.keywords);
            assert(after.next_id == claimed.next_id);
            if after.urls == claimed.urls {
                assert(after == claimed);
            } else {
                assert(after.urls == before.urls.insert(
                    wire::be_bytes(id),
                    wire::record_bytes(new_shortened@),
                ));
                assert(after == before.inserted(keyword@, url@, title_view));
            }
        }
        match stored {
            Ok(_) => Ok(new_shortened),
            Err(e) => Err(Error::from(e)),
        }
    }
}

/// The two partitions have different names.
proof fn lemma_names_differ()
    ensures
        tree_urls() != tree_keywords(),
{
    reveal_strlit("urls");
    reveal_strlit("keywords");
    assert(tree_urls().len() == 4);
    assert(tree_keywords().len() == 8);
}

} // verus!

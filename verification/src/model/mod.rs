//! The records of the store and their encodings.

pub mod codec;
pub mod predicates;
pub mod wire;

use vstd::prelude::*;

verus! {

/// A stored record: a keyword that stands for a URL.
#[derive(Debug, PartialEq, Eq)]
pub struct Shortened {
    /// The primary key, assigned once when the record is created.
    pub id: u64,
    pub keyword: String,
    pub url: String,
    pub title: Option<String>,
}

/// The mathematical value of a [`Shortened`].
pub struct ShortenedView {
    pub id: u64,
    pub keyword: Seq<char>,
    pub url: Seq<char>,
    pub title: Option<Seq<char>>,
}

impl View for Shortened {
    type V = ShortenedView;

    open spec fn view(&self) -> ShortenedView {
        ShortenedView {
            id: self.id,
            keyword: self.keyword@,
            url: self.url@,
            title: match self.title {
                Some(t) => Some(t@),
                None => None,
            },
        }
    }
}

impl Clone for Shortened {
    fn clone(&self) -> (r: Self)
        ensures
            r == *self,
    {
        Shortened {
            id: self.id,
            keyword: self.keyword.clone(),
            url: self.url.clone(),
            title: match &self.title {
                Some(t) => Some(t.clone()),
                None => None,
            },
        }
    }
}

/// The entry of the keyword index: the record's id and a copy of its URL.
#[derive(Debug, PartialEq, Eq)]
pub struct IdAndUrl {
    pub id: u64,
    pub url: String,
}

/// The mathematical value of an [`IdAndUrl`].
pub struct IdAndUrlView {
    pub id: u64,
    pub url: Seq<char>,
}

impl View for IdAndUrl {
    type V = IdAndUrlView;

    open spec fn view(&self) -> IdAndUrlView {
        IdAndUrlView { id: self.id, url: self.url@ }
    }
}

impl Shortened {
    /// The key under which the record with this id is stored: the id's eight
    /// bytes, most significant first, so that keys order as ids do.
    pub fn db_id(id: u64) -> (key: Vec<u8>)
        ensures
            key@ == wire::be_bytes(id),
    {
        codec::write_id(id)
    }

    /// The stored form of the record.
    pub fn to_ivec(&self) -> (data: Vec<u8>)
        ensures
            data@ == wire::record_bytes(self@),
            wire::encodable(self@),
    {
        let data = codec::write_record(self);
        proof {
            assert(data.len() == data@.len());
            wire::lemma_record_length(self@);
        }
        data
    }

    /// The record that `data` starts with, or `None` where it starts with none.
    pub fn decode(data: &[u8]) -> (r: Option<Shortened>)
        ensures
            match r {
                Some(s) => wire::parse_record(data@) == Some(s@),
                None => wire::parse_record(data@) is None,
            },
    {
        codec::read_record(data)
    }

    /// The record stored as `data`. Bytes that hold no record are a corrupted
    /// store, not an input: callers do not pass them.
    pub fn from_ivec(data: Vec<u8>) -> (r: Shortened)
        requires
            wire::parse_record(data@) is Some,
        ensures
            wire::parse_record(data@) == Some(r@),
    {
        match Shortened::decode(data.as_slice()) {
            Some(record) => record,
            None => vstd::pervasive::unreached(),
        }
    }

}

impl IdAndUrl {
    /// The stored form of the entry.
    pub fn to_ivec(&self) -> (data: Vec<u8>)
        ensures
            data@ == wire::id_and_url_bytes(self@),
            vstd::utf8::encode_utf8(self.url@).len() <= u64::MAX,
    {
        let data = codec::write_id_and_url(self);
        proof {
            assert(data.len() == data@.len());
            wire::lemma_id_and_url_length(self@);
        }
        data
    }

    /// The entry that `data` starts with, or `None` where it starts with none.
    pub fn decode(data: &[u8]) -> (r: Option<IdAndUrl>)
        ensures
            match r {
                Some(e) => wire::parse_id_and_url(data@) == Some(e@),
                None => wire::parse_id_and_url(data@) is None,
            },
    {
        codec::read_id_and_url(data)
    }

    /// The entry stored as `data`. Bytes that hold no entry are a corrupted
    /// store, not an input: callers do not pass them.
    pub fn from_ivec(data: Vec<u8>) -> (r: IdAndUrl)
        requires
            wire::parse_id_and_url(data@) is Some,
        ensures
            wire::parse_id_and_url(data@) == Some(r@),
    {
        match IdAndUrl::decode(data.as_slice()) {
            Some(entry) => entry,
            None => vstd::pervasive::unreached(),
        }
    }
}

/// The name of a field of a record.
pub type FieldName = String;

/// A condition on records, as a tree.
#[derive(Debug)]
pub enum SearchCriteria {
    NoCriteria,
    TermContainsStr(String),
    StartsWithStr(FieldName, String),
    EndsWithStr(FieldName, String),
    EqualsStr(FieldName, String),
    And(Box<SearchCriteria>, Box<SearchCriteria>),
    Or(Box<SearchCriteria>, Box<SearchCriteria>),
}

impl Default for SearchCriteria {
    fn default() -> (r: SearchCriteria)
        ensures
            r is NoCriteria,
    {
        SearchCriteria::NoCriteria
    }
}

impl Clone for SearchCriteria {
    fn clone(&self) -> (r: Self)
        ensures
            r == *self,
        decreases self,
    {
        match self {
            SearchCriteria::NoCriteria => SearchCriteria::NoCriteria,
            SearchCriteria::TermContainsStr(s) => SearchCriteria::TermContainsStr(s.clone()),
            SearchCriteria::StartsWithStr(f, s) => SearchCriteria::StartsWithStr(f.clone(), s.clone()),
            SearchCriteria::EndsWithStr(f, s) => SearchCriteria::EndsWithStr(f.clone(), s.clone()),
            SearchCriteria::EqualsStr(f, s) => SearchCriteria::EqualsStr(f.clone(), s.clone()),
            SearchCriteria::And(a, b) => SearchCriteria::And(
                Box::new((**a).clone()),
                Box::new((**b).clone()),
            ),
            SearchCriteria::Or(a, b) => SearchCriteria::Or(
                Box::new((**a).clone()),
                Box::new((**b).clone()),
            ),
        }
    }
}

/// Which page of which records a search returns.
#[derive(Debug)]
pub struct SearchParams {
    /// How many of the matching records, in ascending order of their ids, to
    /// pass over.
    pub start: usize,
    /// How many records to return at most.
    pub page_size: usize,
    /// The text to look for; empty to match every record.
    pub term: String,
}

/// The mathematical value of a [`SearchParams`].
pub struct SearchParamsView {
    pub start: usize,
    pub page_size: usize,
    pub term: Seq<char>,
}

impl View for SearchParams {
    type V = SearchParamsView;

    open spec fn view(&self) -> SearchParamsView {
        SearchParamsView { start: self.start, page_size: self.page_size, term: self.term@ }
    }
}

impl Default for SearchParams {
    fn default() -> (r: SearchParams)
        ensures
            r.start == 0,
            r.page_size == 0,
            r.term@.len() == 0,
    {
        SearchParams { start: 0, page_size: 0, term: String::new() }
    }
}

impl Clone for SearchParams {
    fn clone(&self) -> (r: Self)
        ensures
            r == *self,
    {
        SearchParams { start: self.start, page_size: self.page_size, term: self.term.clone() }
    }
}

/// The length of a string's UTF-8 form. It is a slice's length, so it fits
/// the length prefix of the stored form.
pub fn utf8_len(s: &str) -> (n: usize)
    ensures
        n == vstd::utf8::encode_utf8(s@).len(),
{
    broadcast use vstd::slice::axiom_spec_len;

    s.as_bytes().len()
}

impl Clone for IdAndUrl {
    fn clone(&self) -> (r: Self)
        ensures
            r == *self,
    {
        IdAndUrl { id: self.id, url: self.url.clone() }
    }
}

} // verus!

//! The operations that the web service offers on a store.

pub mod api;
pub mod errors;
pub mod json;
pub mod validation;

use crate::db::{option_view, Db};
use crate::model::wire::be_bytes;
use crate::model::predicates::{page, views};
use crate::model::{IdAndUrlView, SearchParams, Shortened, ShortenedView};
use crate::Error;
use errors::{problem_is, JsonApiError};
use json::{error_views, violations, ShortenedCreate};
use vstd::prelude::*;
use vstd::utf8::encode_utf8;

verus! {

/// The release of the service.
#[derive(Debug, Default)]
pub struct Version {
    pub full: String,
}

impl Clone for Version {
    fn clone(&self) -> (r: Self)
        ensures
            r == *self,
    {
        Version { full: self.full.clone() }
    }
}

/// A page of records, with the positions among the matching records at which
/// it starts and ends.
#[derive(Debug)]
pub struct SearchResults {
    pub start: usize,
    pub end: usize,
    pub urls: Vec<Shortened>,
    pub params: SearchParams,
}

/// The status code of a temporary redirect.
pub const TEMPORARY_REDIRECT: u16 = 307;

/// An answer that sends the visitor elsewhere.
#[derive(Debug, PartialEq, Eq)]
pub struct Redirect {
    pub status: u16,
    pub location: String,
}

impl Redirect {
    /// The redirect that is to be asked for again next time.
    pub fn temporary(location: String) -> (r: Redirect)
        ensures
            r.status == TEMPORARY_REDIRECT,
            r.location == location,
    {
        Redirect { status: TEMPORARY_REDIRECT, location }
    }
}

/// The status code that says that nothing was found.
pub const NOT_FOUND: u16 = 404;

/// The status code that says that the service cannot answer.
pub const SERVICE_UNAVAILABLE: u16 = 503;

/// The greeting of the service.
pub fn index(version: &Version) -> (r: String)
    ensures
        r@ == "Turls v"@ + version.full@,
{
    "Turls v".to_owned().concat(version.full.as_str())
}

/// What a visitor is answered, for each outcome of looking the keyword up:
/// a temporary redirect to the URL, or the status code of the refusal. Only
/// an id that is not stored counts as not found; a keyword that is not stored
/// is answered like a failure of the store.
pub fn destination(found: Result<String, Error>) -> (r: Result<Redirect, u16>)
    ensures
        match found {
            Ok(url) => r == Ok::<Redirect, u16>(
                Redirect { status: TEMPORARY_REDIRECT, location: url },
            ),
            Err(Error::UrlDoesNotExist(_)) => r == Err::<Redirect, u16>(NOT_FOUND),
            Err(_) => r == Err::<Redirect, u16>(SERVICE_UNAVAILABLE),
        },
{
    match found {
        Ok(u) => Ok(Redirect::temporary(u)),
        Err(Error::UrlDoesNotExist(_)) => Err(NOT_FOUND),
        Err(_) => Err(SERVICE_UNAVAILABLE),
    }
}

/// Where the keyword sends a visitor: a temporary redirect to its URL, or
/// the status code of the refusal.
pub fn goto_keyword(db: &Db, keyword: &str) -> (r: Result<Redirect, u16>)
    requires
        db@.keywords.contains_key(encode_utf8(keyword@)) ==> db@.target(keyword@) is Some,
    ensures
        match r {
            Ok(to) => {
                &&& to.status == TEMPORARY_REDIRECT
                &&& db@.target(keyword@) is Some
                &&& db@.target(keyword@)->0.url == to.location@
            },
            Err(code) => code == SERVICE_UNAVAILABLE,
        },
{
    destination(db.find_url_by_keyword(keyword))
}

/// Creates a record from a request, once the request has passed its rules.
pub fn shorten(db: &mut Db, url: &ShortenedCreate) -> (r: Result<Shortened, JsonApiError>)
    ensures
        violations(url@).len() > 0 ==> {
            &&& final(db)@ == old(db)@
            &&& r matches Err(
                JsonApiError::BadRequest(json::Error::InvalidShortenedCreate(request, errors)),
            )
            &&& request@ == url@
            &&& error_views(errors@) == violations(url@)
        },
        violations(url@).len() == 0 ==> match r {
            Ok(s) => {
                &&& s@ == (ShortenedView {
                    id: old(db)@.next_id,
                    keyword: url@.keyword,
                    url: url@.url,
                    title: url@.title,
                })
                &&& !old(db)@.keywords.contains_key(encode_utf8(url@.keyword))
                &&& final(db)@ == old(db)@.inserted(url@.keyword, url@.url, url@.title)
                &&& final(db)@.record(s.id) == Some(s@)
                &&& final(db)@.target(url@.keyword) == Some(
                    IdAndUrlView { id: s.id, url: url@.url },
                )
                &&& old(db)@.wf() ==> !old(db)@.urls.contains_key(be_bytes(s.id))
            },
            Err(JsonApiError::Conflict(p)) => {
                &&& problem_is(p, None, Some(url@.keyword), "keyword already exists"@)
                &&& old(db)@.keywords.contains_key(encode_utf8(url@.keyword))
                &&& final(db)@ == old(db)@.bumped()
            },
            Err(JsonApiError::GenericError(_)) => old(db)@.cut_short_insert(
                final(db)@,
                url@.keyword,
                url@.url,
                url@.title,
            ),
            Err(_) => false,
        },
        old(db)@.wf() && old(db)@.next_id < u64::MAX ==> final(db)@.wf(),
        old(db)@.wf() && old(db)@.complete() && old(db)@.next_id < u64::MAX && !(r matches Err(
            JsonApiError::GenericError(_),
        )) ==> final(db)@.complete(),
{
    match url.validate() {
        Ok(_) => {},
        Err(e) => {
            return Err(JsonApiError::from(e));
        },
    }
    let title: Option<&str> = match &url.title {
        Some(t) => Some(t.as_str()),
        None => None,
    };
    assert(option_view(title) == url@.title);
    match db.insert_url(url.keyword.as_str(), url.url.as_str(), title) {
        Ok(s) => Ok(s),
        Err(e) => Err(JsonApiError::from(e)),
    }
}

/// The URL that a keyword stands for.
pub fn expand_keyword(db: &Db, keyword: &str) -> (r: Result<String, JsonApiError>)
    requires
        db@.keywords.contains_key(encode_utf8(keyword@)) ==> db@.target(keyword@) is Some,
    ensures
        match r {
            Ok(url) => db@.target(keyword@) matches Some(e) && e.url == url@,
            Err(JsonApiError::NotFound(p)) => !db@.keywords.contains_key(encode_utf8(keyword@))
                && problem_is(p, None, Some(keyword@), "keyword does not exist"@),
            Err(JsonApiError::GenericError(_)) => true,
            Err(_) => false,
        },
{
    match db.find_url_by_keyword(keyword) {
        Ok(url) => Ok(url),
        Err(e) => Err(JsonApiError::from(e)),
    }
}

/// The record with an id.
pub fn get_shortened(db: &Db, id: u64) -> (r: Result<Shortened, JsonApiError>)
    requires
        db@.urls.contains_key(be_bytes(id)) ==> db@.record(id) is Some,
    ensures
        match r {
            Ok(s) => db@.record(id) == Some(s@),
            Err(JsonApiError::NotFound(p)) => !db@.urls.contains_key(be_bytes(id)) && problem_is(
                p,
                Some(id),
                None,
                "keyword does not exist"@,
            ),
            Err(JsonApiError::GenericError(_)) => true,
            Err(_) => false,
        },
{
    match db.find_url(id) {
        Ok(url) => Ok(url),
        Err(e) => Err(JsonApiError::from(e)),
    }
}

/// The answer to a search, from its page: the start that was asked for, and
/// as the end the start plus the number of records on the page, or the
/// largest number where that sum is none.
pub fn results_of(urls: Vec<Shortened>, p: &SearchParams) -> (results: SearchResults)
    ensures
        results.urls == urls,
        results.start == p.start,
        results.end == if p.start + urls@.len() <= usize::MAX {
            p.start + urls@.len()
        } else {
            usize::MAX as int
        },
        results.params@ == p@,
{
    let end = match p.start.checked_add(urls.len()) {
        Some(end) => end,
        None => usize::MAX,
    };
    SearchResults { start: p.start, end, urls, params: p.clone() }
}

/// A page of the records that pass a filter, with its bounds.
pub fn search(db: &Db, p: &SearchParams) -> (r: Result<SearchResults, JsonApiError>)
    requires
        db@.readable(),
    ensures
        match r {
            Ok(results) => {
                &&& views(results.urls@) == page(db@.records(), p@)
                &&& results.urls@.len() <= p.page_size
                &&& results.start == p.start
                &&& results.end == if p.start + results.urls@.len() <= usize::MAX {
                    p.start + results.urls@.len()
                } else {
                    usize::MAX as int
                }
                &&& results.params@ == p@
                &&& crate::db::listing::is_listing(
                    crate::db::listing::listing_of(db@.urls),
                    db@.urls,
                )
            },
            Err(e) => e is GenericError,
        },
{
    match db.search(p) {
        Ok(urls) => Ok(results_of(urls, p)),
        Err(e) => Err(JsonApiError::from(e)),
    }
}

} // verus!

//! Creating and fetching a record, with no rules on the request and two
//! kinds of failure only.

use super::errors::{problem_is, Problem};
use crate::db::{option_view, Db};
use crate::model::wire::be_bytes;
use crate::model::{IdAndUrlView, Shortened, ShortenedView};
use crate::{message, Error};
use vstd::prelude::*;
use vstd::utf8::encode_utf8;

verus! {

/// A request to create a record.
#[derive(Debug, PartialEq, Eq)]
pub struct ShortenedCreate {
    pub keyword: String,
    pub url: String,
    pub title: Option<String>,
}

impl Clone for ShortenedCreate {
    fn clone(&self) -> (r: Self)
        ensures
            r == *self,
    {
        ShortenedCreate {
            keyword: self.keyword.clone(),
            url: self.url.clone(),
            title: match &self.title {
                Some(t) => Some(t.clone()),
                None => None,
            },
        }
    }
}

/// A failure as it is reported: nothing found, or anything else.
#[derive(Debug, PartialEq, Eq)]
pub enum JsonApiError {
    NotFound(Problem),
    GenericError(Problem),
}

impl JsonApiError {
    /// The status code of the response.
    pub fn status(&self) -> (code: u16)
        ensures
            code == match self {
                JsonApiError::NotFound(_) => 404u16,
                JsonApiError::GenericError(_) => 500u16,
            },
    {
        match self {
            JsonApiError::NotFound(_) => 404,
            JsonApiError::GenericError(_) => 500,
        }
    }
}

impl From<Error> for JsonApiError {
    fn from(e: Error) -> (r: JsonApiError)
        ensures
            r is GenericError,
            problem_is(r->GenericError_0, None, None, message(e)),
    {
        JsonApiError::GenericError(Problem { id: None, keyword: None, message: e.to_string() })
    }
}

impl vstd::std_specs::convert::FromSpecImpl<Error> for JsonApiError {
    open spec fn obeys_from_spec() -> bool {
        false
    }

    open spec fn from_spec(e: Error) -> Self {
        arbitrary()
    }
}

/// The report that no record has the id.
pub fn not_found(id: u64) -> (r: JsonApiError)
    ensures
        r is NotFound,
        problem_is(r->NotFound_0, Some(id), None, "not found"@),
{
    JsonApiError::NotFound(Problem { id: Some(id), keyword: None, message: "not found".to_owned() })
}

/// Creates a record from a request.
pub fn shorten(db: &mut Db, url: &ShortenedCreate) -> (r: Result<Shortened, JsonApiError>)
    ensures
        match r {
            Ok(s) => {
                &&& s@ == (ShortenedView {
                    id: old(db)@.next_id,
                    keyword: url.keyword@,
                    url: url.url@,
                    title: title_view(url.title),
                })
                &&& !old(db)@.keywords.contains_key(encode_utf8(url.keyword@))
                &&& final(db)@ == old(db)@.inserted(url.keyword@, url.url@, title_view(url.title))
                &&& final(db)@.record(s.id) == Some(s@)
                &&& final(db)@.target(url.keyword@) == Some(
                    IdAndUrlView { id: s.id, url: url.url@ },
                )
                &&& old(db)@.wf() ==> !old(db)@.urls.contains_key(be_bytes(s.id))
            },
            Err(JsonApiError::GenericError(p)) => {
                ||| old(db)@.keywords.contains_key(encode_utf8(url.keyword@)) && final(db)@ == old(
                    db,
                )@.bumped() && problem_is(
                    p,
                    None,
                    None,
                    message(Error::KeywordAlreadyExists(url.keyword)),
                )
                ||| old(db)@.cut_short_insert(
                    final(db)@,
                    url.keyword@,
                    url.url@,
                    title_view(url.title),
                )
            },
            Err(JsonApiError::NotFound(_)) => false,
        },
        old(db)@.wf() && old(db)@.next_id < u64::MAX ==> final(db)@.wf(),
        old(db)@.wf() && old(db)@.complete() && old(db)@.next_id < u64::MAX && r is Ok
            ==> final(db)@.complete(),
{
    let title: Option<&str> = match &url.title {
        Some(t) => Some(t.as_str()),
        None => None,
    };
    assert(option_view(title) == title_view(url.title));
    match db.insert_url(url.keyword.as_str(), url.url.as_str(), title) {
        Ok(s) => Ok(s),
        Err(e) => Err(JsonApiError::from(e)),
    }
}

/// The value of an optional string.
pub open spec fn title_view(title: Option<String>) -> Option<Seq<char>> {
    match title {
        Some(t) => Some(t@),
        None => None,
    }
}

/// The record with an id.
pub fn get_shortened(db: &Db, id: u64) -> (r: Result<Shortened, JsonApiError>)
    requires
        db@.urls.contains_key(be_bytes(id)) ==> db@.record(id) is Some,
    ensures
        match r {
            Ok(s) => db@.record(id) == Some(s@),
            Err(JsonApiError::NotFound(p)) => !db@.urls.contains_key(be_bytes(id)) && problem_is(
                p,
                Some(id),
                None,
                "not found"@,
            ),
            Err(JsonApiError::GenericError(_)) => true,
        },
{
    match db.find_url(id) {
        Ok(url) => Ok(url),
        Err(Error::UrlDoesNotExist(_)) => Err(not_found(id)),
        Err(e) => Err(JsonApiError::from(e)),
    }
}

} // verus!

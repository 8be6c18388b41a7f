//! How a failure is reported to a client.

use super::json;
use crate::Error;
use vstd::prelude::*;

verus! {

/// What a client is told of a failure: the id or the keyword that it is
/// about, where there is one, and a message.
#[derive(Debug, PartialEq, Eq)]
pub struct Problem {
    pub id: Option<u64>,
    pub keyword: Option<String>,
    pub message: String,
}

/// A failure as the web service reports it, by kind of response.
#[derive(Debug, PartialEq, Eq)]
pub enum JsonApiError {
    /// The request breaks a rule.
    BadRequest(json::Error),
    /// The request conflicts with what is stored.
    Conflict(Problem),
    /// What the request names is not stored.
    NotFound(Problem),
    /// The service failed.
    GenericError(Problem),
}

/// The problem `p` is about `id`, about `keyword`, and says `message`.
pub open spec fn problem_is(p: Problem, id: Option<u64>, keyword: Option<Seq<char>>, message: Seq<char>) -> bool {
    &&& p.id == id
    &&& match keyword {
        Some(kw) => p.keyword is Some && p.keyword->0@ == kw,
        None => p.keyword is None,
    }
    &&& p.message@ == message
}

/// The response `r` reports the failure `e`.
pub open spec fn reports(r: JsonApiError, e: Error) -> bool {
    match e {
        Error::DbError(x) => r is GenericError && problem_is(r->GenericError_0, None, None, x@),
        Error::UrlDoesNotExist(id) => r is NotFound && problem_is(
            r->NotFound_0,
            Some(id),
            None,
            "keyword does not exist"@,
        ),
        Error::KeywordDoesNotExist(kw) => r is NotFound && problem_is(
            r->NotFound_0,
            None,
            Some(kw@),
            "keyword does not exist"@,
        ),
        Error::KeywordAlreadyExists(kw) => r is Conflict && problem_is(
            r->Conflict_0,
            None,
            Some(kw@),
            "keyword already exists"@,
        ),
    }
}

impl JsonApiError {
    /// The status code of the response.
    pub fn status(&self) -> (code: u16)
        ensures
            code == match self {
                JsonApiError::BadRequest(_) => 400u16,
                JsonApiError::Conflict(_) => 409u16,
                JsonApiError::NotFound(_) => 404u16,
                JsonApiError::GenericError(_) => 500u16,
            },
    {
        match self {
            JsonApiError::BadRequest(_) => 400,
            JsonApiError::Conflict(_) => 409,
            JsonApiError::NotFound(_) => 404,
            JsonApiError::GenericError(_) => 500,
        }
    }
}

impl From<Error> for JsonApiError {
    fn from(e: Error) -> (r: JsonApiError)
        ensures
            reports(r, e),
    {
        match e {
            Error::DbError(x) => JsonApiError::GenericError(
                Problem { id: None, keyword: None, message: x },
            ),
            Error::UrlDoesNotExist(id) => JsonApiError::NotFound(
                Problem { id: Some(id), keyword: None, message: "keyword does not exist".to_owned() },
            ),
            Error::KeywordDoesNotExist(kw) => JsonApiError::NotFound(
                Problem { id: None, keyword: Some(kw), message: "keyword does not exist".to_owned() },
            ),
            Error::KeywordAlreadyExists(kw) => JsonApiError::Conflict(
                Problem { id: None, keyword: Some(kw), message: "keyword already exists".to_owned() },
            ),
        }
    }
}

impl vstd::std_specs::convert::FromSpecImpl<Error> for JsonApiError {
    open spec fn obeys_from_spec() -> bool {
        false
    }

    open spec fn from_spec(e: Error) -> Self {
        arbitrary()
    }
}

impl From<json::Error> for JsonApiError {
    fn from(e: json::Error) -> (r: JsonApiError)
        ensures
            r == JsonApiError::BadRequest(e),
    {
        JsonApiError::BadRequest(e)
    }
}

impl vstd::std_specs::convert::FromSpecImpl<json::Error> for JsonApiError {
    open spec fn obeys_from_spec() -> bool {
        true
    }

    open spec fn from_spec(e: json::Error) -> Self {
        JsonApiError::BadRequest(e)
    }
}

} // verus!

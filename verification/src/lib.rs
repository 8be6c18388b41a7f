//! Keyword-to-URL store: two mutually consistent indexes over an embedded
//! ordered key-value store.

pub mod api;
pub mod db;
pub mod model;
pub mod text;

use vstd::prelude::*;

verus! {

/// Why an operation on the store did not succeed.
#[derive(Debug)]
pub enum Error {
    /// The storage engine failed; the text is its report.
    DbError(String),
    /// No record has this id.
    UrlDoesNotExist(u64),
    /// No record has this keyword.
    KeywordDoesNotExist(String),
    /// A record with this keyword exists already.
    KeywordAlreadyExists(String),
}

/// What an [`Error`] says in words.
pub open spec fn message(e: Error) -> Seq<char> {
    match e {
        Error::DbError(m) => m@,
        Error::KeywordAlreadyExists(kw) => kw@ + " already exists"@,
        Error::UrlDoesNotExist(id) => text::decimal(id as nat) + " does not exist"@,
        Error::KeywordDoesNotExist(kw) => kw@ + " does not exist"@,
    }
}

impl Error {
    /// The error in words.
    pub fn to_string(&self) -> (r: String)
        ensures
            r@ == message(*self),
    {
        match self {
            Error::DbError(m) => m.clone(),
            Error::KeywordAlreadyExists(kw) => kw.clone().concat(" already exists"),
            Error::UrlDoesNotExist(id) => text::to_decimal(*id).concat(" does not exist"),
            Error::KeywordDoesNotExist(kw) => kw.clone().concat(" does not exist"),
        }
    }
}

impl From<sled::Error> for Error {
    fn from(e: sled::Error) -> (r: Self)
        ensures
            r is DbError,
    {
        Error::DbError(crate::db::engine::failure_text(&e))
    }
}

impl vstd::std_specs::convert::FromSpecImpl<sled::Error> for Error {
    open spec fn obeys_from_spec() -> bool {
        false
    }

    open spec fn from_spec(e: sled::Error) -> Self {
        arbitrary()
    }
}

} // verus!

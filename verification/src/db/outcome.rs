//! What an operation returns, for each outcome of the storage engine's part
//! in it.

use crate::db::engine;
use crate::model::wire;
use crate::model::{IdAndUrl, Shortened};
use crate::Error;
use sled::Error as StoreFailure;
use vstd::prelude::*;

verus! {

/// What a lookup by id returns, for each outcome of reading the primary
/// index.
pub fn found_url(id: u64, read: Result<Option<Vec<u8>>, StoreFailure>) -> (r: Result<Shortened, Error>)
    requires
        read matches Ok(Some(data)) ==> wire::parse_record(data@) is Some,
    ensures
        match read {
            Ok(Some(data)) => r matches Ok(s) && wire::parse_record(data@) == Some(s@),
            Ok(None) => r matches Err(Error::UrlDoesNotExist(i)) && i == id,
            Err(_) => r matches Err(Error::DbError(_)),
        },
{
    match read {
        Ok(Some(data)) => Ok(Shortened::from_ivec(data)),
        Ok(None) => Err(Error::UrlDoesNotExist(id)),
        Err(e) => Err(Error::from(e)),
    }
}

/// What a lookup by keyword returns, for each outcome of reading the keyword
/// index.
pub fn found_keyword(keyword: &str, read: Result<Option<Vec<u8>>, StoreFailure>) -> (r: Result<
    IdAndUrl,
    Error,
>)
    requires
        read matches Ok(Some(data)) ==> wire::parse_id_and_url(data@) is Some,
    ensures
        match read {
            Ok(Some(data)) => r matches Ok(e) && wire::parse_id_and_url(data@) == Some(e@),
            Ok(None) => r matches Err(Error::KeywordDoesNotExist(k)) && k@ == keyword@,
            Err(_) => r matches Err(Error::DbError(_)),
        },
{
    match read {
        Ok(Some(data)) => Ok(IdAndUrl::from_ivec(data)),
        Ok(None) => Err(Error::KeywordDoesNotExist(keyword.to_owned())),
        Err(e) => Err(Error::from(e)),
    }
}

/// What an insertion returns once it has tried to claim the keyword, for each
/// outcome of the conditional write to the keyword index: `Ok` where the
/// keyword was free and is now taken.
pub fn claimed_keyword(keyword: &str, written: Result<bool, StoreFailure>) -> (r: Result<(), Error>)
    ensures
        match written {
            Ok(true) => r is Ok,
            Ok(false) => r matches Err(Error::KeywordAlreadyExists(k)) && k@ == keyword@,
            Err(_) => r matches Err(Error::DbError(_)),
        },
{
    match written {
        Ok(true) => Ok(()),
        Ok(false) => Err(Error::KeywordAlreadyExists(keyword.to_owned())),
        Err(e) => Err(Error::from(e)),
    }
}

/// What a deletion returns once it has found the record, for each outcome of
/// the transaction that removes the record and its keyword entry.
pub fn removed_record(done: Result<(), sled::transaction::TransactionError<()>>) -> (r: Result<
    bool,
    Error,
>)
    ensures
        match done {
            Ok(_) => r == Ok::<bool, Error>(true),
            Err(_) => r matches Err(Error::DbError(_)),
        },
{
    match done {
        Ok(_) => Ok(true),
        Err(e) => Err(Error::DbError(engine::transaction_failure_text(&e))),
    }
}

} // verus!

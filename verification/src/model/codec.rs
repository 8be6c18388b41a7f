//! The calls that write and read the byte layout of keys and values.
//!
//! Nothing here is proved. Each function makes the call that its comment
//! names, and its contract says that the call keeps to the layout.

use super::wire::{be_bytes, id_and_url_bytes, parse_id_and_url, parse_record, record_bytes};
use super::{IdAndUrl, Shortened};
use vstd::prelude::*;
use zerocopy::AsBytes;

verus! {

/// `bincode::serialize` on the fields of a record, in order. The result is the
/// layout of a record: fixed-width little-endian integers, length-prefixed
/// UTF-8 strings, a one-byte tag for the option. Writing these fields into a
/// fresh vector has no failure path in bincode.
#[verifier::external_body]
pub(crate) fn write_record(r: &Shortened) -> (out: Vec<u8>)
    ensures
        out@ == record_bytes(r@),
{
    bincode::serialize(&(r.id, &r.keyword, &r.url, &r.title)).expect("should have serialized")
}

/// `bincode::deserialize` into the fields of a record. It succeeds exactly on
/// input that starts with the layout of a record, and yields that record;
/// trailing bytes are accepted.
#[verifier::external_body]
pub(crate) fn read_record(bytes: &[u8]) -> (r: Option<Shortened>)
    ensures
        match r {
            Some(s) => parse_record(bytes@) == Some(s@),
            None => parse_record(bytes@) is None,
        },
{
    match bincode::deserialize::<(u64, String, String, Option<String>)>(bytes) {
        Ok((id, keyword, url, title)) => Some(Shortened { id, keyword, url, title }),
        Err(_) => None,
    }
}

/// `bincode::serialize` on the fields of a keyword-index entry, in order: the
/// layout of such an entry. This, too, has no failure path.
#[verifier::external_body]
pub(crate) fn write_id_and_url(e: &IdAndUrl) -> (out: Vec<u8>)
    ensures
        out@ == id_and_url_bytes(e@),
{
    bincode::serialize(&(e.id, &e.url)).expect("should have serialized")
}

/// `bincode::deserialize` into the fields of a keyword-index entry. It
/// succeeds exactly on input that starts with the layout of such an entry,
/// and yields that entry; trailing bytes are accepted.
#[verifier::external_body]
pub(crate) fn read_id_and_url(bytes: &[u8]) -> (r: Option<IdAndUrl>)
    ensures
        match r {
            Some(e) => parse_id_and_url(bytes@) == Some(e@),
            None => parse_id_and_url(bytes@) is None,
        },
{
    match bincode::deserialize::<(u64, String)>(bytes) {
        Ok((id, url)) => Some(IdAndUrl { id, url }),
        Err(_) => None,
    }
}

/// `zerocopy::U64::<byteorder::BigEndian>::new`, then `as_bytes`: the eight
/// bytes of `id`, most significant first.
#[verifier::external_body]
pub(crate) fn write_id(id: u64) -> (out: Vec<u8>)
    ensures
        out@ == be_bytes(id),
{
    zerocopy::U64::<byteorder::BigEndian>::new(id).as_bytes().to_vec()
}

} // verus!

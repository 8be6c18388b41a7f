//! The storage engine: named partitions of an embedded store, each an ordered
//! map from byte-string keys to byte-string values.
//!
//! Nothing here is proved. Each function makes the calls that its comment
//! names, and its contract says what those calls do. A store is reached
//! through one handle only: the store's file is locked while the handle
//! lives, and the handle is never cloned. So what the store holds changes only
//! where a function here takes the handle by `&mut`, and never while a cursor
//! walks it.

use crate::db::listing::is_listing;
use sled::Db as Store;
use sled::Error as StoreFailure;
use sled::Transactional;
use vstd::prelude::*;

verus! {

/// The handle of an open store.
#[verifier::external_type_specification]
#[verifier::external_body]
pub struct ExStore(Store);

/// A failure reported by the store.
#[verifier::external_type_specification]
#[verifier::external_body]
pub struct ExStoreError(StoreFailure);

/// A failure reported by a transaction on the store.
#[verifier::external_type_specification]
#[verifier::external_body]
#[verifier::reject_recursive_types(E)]
pub struct ExTransactionError<E>(sled::transaction::TransactionError<E>);

/// The store's own byte string, in which a cursor yields keys and values.
#[verifier::external_type_specification]
#[verifier::external_body]
pub struct ExStoredBytes(sled::IVec);

/// The store's own cursor over the entries of one partition.
#[verifier::external_type_specification]
#[verifier::external_body]
pub struct ExCursor(sled::Iter);

/// What a store holds in the partition `name`: its entries, none where the
/// partition does not exist yet.
pub uninterp spec fn partition(store: Store, name: Seq<char>) -> Map<Seq<u8>, Seq<u8>>;

/// The id that the store will hand out next.
pub uninterp spec fn next_id(store: Store) -> u64;

/// The entries that a cursor has yet to yield, in the order in which it will
/// yield them.
pub uninterp spec fn remaining(cursor: sled::Iter) -> Seq<(Seq<u8>, Seq<u8>)>;

/// Between `before` and `after` nothing changed but, at most, the partition `name`.
pub open spec fn same_but(before: Store, after: Store, name: Seq<char>) -> bool {
    &&& next_id(after) == next_id(before)
    &&& forall|other: Seq<char>|
        other != name ==> #[trigger] partition(after, other) == partition(before, other)
}

/// `sled::Config::new`, `path`, `temporary`, `open`: opens the store at `path`,
/// creating it where there is none. Nothing is known of what it holds.
#[verifier::external_body]
pub(crate) fn open_store(path: &str, temporary: bool) -> Result<Store, StoreFailure> {
    sled::Config::new().path(path).temporary(temporary).open()
}

/// `sled::Db::generate_id`: hands out the store's next id and moves the
/// counter on by one, also where it then reports a failure. No partition
/// changes.
#[verifier::external_body]
pub(crate) fn generate_id(store: &mut Store) -> (r: Result<u64, StoreFailure>)
    ensures
        r matches Ok(id) ==> id == next_id(*old(store)),
        next_id(*final(store)) == (if next_id(*old(store)) == u64::MAX {
            0
        } else {
            next_id(*old(store)) + 1
        }),
        forall|name: Seq<char>| #[trigger]
            partition(*final(store), name) == partition(*old(store), name),
{
    store.generate_id()
}

/// `sled::Db::open_tree`, then `sled::Tree::get`: a read that succeeds gives
/// the value under `key` in the partition `name`, or `None` where there is no
/// such key.
#[verifier::external_body]
pub(crate) fn get(store: &Store, name: &str, key: &[u8]) -> (r: Result<
    Option<Vec<u8>>,
    StoreFailure,
>)
    ensures
        r matches Ok(found) ==> match found {
            Some(value) => partition(*store, name@).contains_key(key@) && partition(
                *store,
                name@,
            )[key@] == value@,
            None => !partition(*store, name@).contains_key(key@),
        },
{
    Ok(store.open_tree(name)?.get(key)?.map(|value| value.to_vec()))
}

/// `sled::Db::open_tree`, then `sled::Tree::insert`: a write that succeeds
/// has put `value` under `key` in the partition `name`. One that fails has
/// either done so or changed nothing.
#[verifier::external_body]
pub(crate) fn put(store: &mut Store, name: &str, key: &[u8], value: &[u8]) -> (r: Result<
    (),
    StoreFailure,
>)
    ensures
        same_but(*old(store), *final(store), name@),
        r is Ok ==> partition(*final(store), name@) == partition(*old(store), name@).insert(
            key@,
            value@,
        ),
        r is Err ==> partition(*final(store), name@) == partition(*old(store), name@) || partition(
            *final(store),
            name@,
        ) == partition(*old(store), name@).insert(key@, value@),
{
    store.open_tree(name)?.insert(key, value).map(|_| ())
}

/// `sled::Db::open_tree`, then `sled::Tree::compare_and_swap` from absent to
/// `value`. `Ok(true)`: the partition `name` had no `key`, and now holds
/// `value` under it. `Ok(false)`: it had the key, and nothing changed. A
/// failure: the write may have been made, if the key was absent.
#[verifier::external_body]
pub(crate) fn put_if_absent(store: &mut Store, name: &str, key: &[u8], value: &[u8]) -> (r:
    Result<bool, StoreFailure>)
    ensures
        same_but(*old(store), *final(store), name@),
        r matches Ok(written) ==> written == !partition(*old(store), name@).contains_key(key@),
        r matches Ok(written) ==> partition(*final(store), name@) == (if written {
            partition(*old(store), name@).insert(key@, value@)
        } else {
            partition(*old(store), name@)
        }),
        r is Err ==> partition(*final(store), name@) == partition(*old(store), name@) || (
        !partition(*old(store), name@).contains_key(key@) && partition(*final(store), name@)
            == partition(*old(store), name@).insert(key@, value@)),
{
    let swapped = store.open_tree(name)?.compare_and_swap(key, None as Option<&[u8]>, Some(value))?;
    Ok(swapped.is_ok())
}

/// `sled::Db::open_tree` twice, then `sled::Transactional::transaction` on
/// the pair, with `sled::transaction::TransactionalTree::remove` on each: one
/// transaction that removes `first_key` from the partition `first` and
/// `second_key` from the partition `second`. Where it succeeds both are gone.
/// Where it fails, the store applies the first partition's removal before the
/// second's, and either may be left undone.
#[verifier::external_body]
pub(crate) fn remove_both(
    store: &mut Store,
    first: &str,
    first_key: &[u8],
    second: &str,
    second_key: &[u8],
) -> (r: Result<(), sled::transaction::TransactionError<()>>)
    requires
        first@ != second@,
    ensures
        next_id(*final(store)) == next_id(*old(store)),
        forall|other: Seq<char>|
            other != first@ && other != second@ ==> #[trigger] partition(*final(store), other)
                == partition(*old(store), other),
        r is Ok ==> partition(*final(store), first@) == partition(*old(store), first@).remove(
            first_key@,
        ) && partition(*final(store), second@) == partition(*old(store), second@).remove(
            second_key@,
        ),
        r is Err ==> partition(*final(store), first@) == partition(*old(store), first@)
            || partition(*final(store), first@) == partition(*old(store), first@).remove(
            first_key@,
        ),
        r is Err ==> partition(*final(store), second@) == partition(*old(store), second@) || (
        partition(*final(store), second@) == partition(*old(store), second@).remove(second_key@)
            && partition(*final(store), first@) == partition(*old(store), first@).remove(
            first_key@,
        )),
{
    let one = store.open_tree(first)?;
    let two = store.open_tree(second)?;
    (&one, &two).transaction(
        |(in_one, in_two)|
            {
                in_two.remove(second_key)?;
                in_one.remove(first_key)?;
                Ok(())
            },
    )
}

/// A cursor over the entries of one partition. It borrows the store for as
/// long as it lives, so that the store does not change under it.
#[allow(dead_code)]
pub struct Cursor<'a> {
    pub(crate) entries: sled::Iter,
    pub(crate) store: &'a Store,
}

/// `sled::Db::open_tree`, then `sled::Tree::iter`: a cursor that will yield
/// the entries of the partition `name` in ascending order of their keys.
#[verifier::external_body]
pub(crate) fn scan<'a>(store: &'a Store, name: &str) -> (r: Result<Cursor<'a>, StoreFailure>)
    ensures
        r matches Ok(cursor) ==> is_listing(remaining(cursor.entries), partition(*store, name@)),
{
    Ok(Cursor { entries: store.open_tree(name)?.iter(), store })
}

/// `Iterator::next` of `sled::Iter`: yields the first of the remaining
/// entries and drops it from them, or `None` when none remains. A read
/// that fails says nothing of what remains.
#[verifier::external_body]
pub(crate) fn next_entry(cursor: &mut Cursor<'_>) -> (r: Option<
    Result<(Vec<u8>, Vec<u8>), StoreFailure>,
>)
    ensures
        r is None ==> remaining(old(cursor).entries).len() == 0,
        r matches Some(Ok(entry)) ==> remaining(old(cursor).entries).len() > 0 && remaining(
            old(cursor).entries,
        )[0] == (entry.0@, entry.1@) && remaining(final(cursor).entries) == remaining(
            old(cursor).entries,
        ).drop_first(),
{
    cursor.entries.next().map(|read| read.map(|(key, value)| (key.to_vec(), value.to_vec())))
}

/// `Display` of `sled::Error`: the failure in words.
#[verifier::external_body]
pub(crate) fn failure_text(failure: &StoreFailure) -> String {
    failure.to_string()
}

/// `Debug` of `sled::transaction::TransactionError`: the failure in words.
#[verifier::external_body]
pub(crate) fn transaction_failure_text(failure: &sled::transaction::TransactionError<()>) -> String {
    format!("{:?}", failure)
}

} // verus!

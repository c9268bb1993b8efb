//! What the store promises, proved of the three operations as they run on a
//! disk.
//!
//! Each statement holds for every disk, every key and value, and every way
//! in which the filesystem may answer the steps of an operation.

use crate::disk::{exists_at, Directory, Disk};
use crate::encoder::key_digest;
use crate::error::StorageError;
use crate::get::lemma_get_run;
use crate::paths::{
    lemma_data_path_injective, lemma_temp_is_no_data_path, lemma_temp_path_injective,
};
use crate::put::{lemma_put_run, lemma_put_run_keeps_settled, lemma_put_run_survives, PutStep};
use crate::remove::{
    lemma_remove_run, lemma_remove_run_keeps_settled, lemma_remove_run_survives, RemoveStep,
};
use crate::store::{fits, FileSystemStableStorage};
use vstd::prelude::*;

verus! {

/// The temporary file of a key is not its data file, and the files of two
/// keys with different digests are four different files.
pub proof fn lemma_files_are_distinct(
    store: FileSystemStableStorage,
    key: Seq<char>,
    other: Seq<char>,
)
    ensures
        store.temp_file_of(key) != store.data_file_of(key),
        store.temp_file_of(key) != store.data_file_of(other),
        key_digest(key) != key_digest(other) ==> {
            &&& store.data_file_of(key) != store.data_file_of(other)
            &&& store.temp_file_of(key) != store.temp_file_of(other)
        },
{
    lemma_temp_is_no_data_path(store.root(), key_digest(key), key_digest(key));
    lemma_temp_is_no_data_path(store.root(), key_digest(key), key_digest(other));
    if store.data_file_of(key) == store.data_file_of(other) {
        lemma_data_path_injective(store.root(), key_digest(key), key_digest(other));
    }
    if store.temp_file_of(key) == store.temp_file_of(other) {
        lemma_temp_path_injective(store.root(), key_digest(key), key_digest(other));
    }
}

/// A `put` succeeds exactly when the key and the value fit and every step
/// succeeds; and after a `put` that succeeded, a `get` of the same key
/// whose read goes well returns the value that was put, byte for byte.
pub proof fn lemma_put_then_get(
    store: FileSystemStableStorage,
    disk: Disk,
    key: Seq<char>,
    value: Seq<u8>,
    replies: spec_fn(PutStep) -> Result<(), String>,
)
    ensures
        ({
            let (after, result) = store.put(disk, key, value, replies);
            &&& result is Ok <==> fits(key, value) && forall|step: PutStep|
                (#[trigger] replies(step)) is Ok
            &&& result is Ok ==> store.get(after, key, Ok(())) == Some(value)
        }),
{
    let temp = store.temp_file_of(key);
    let data = store.data_file_of(key);
    lemma_files_are_distinct(store, key, key);
    lemma_put_run(disk, temp, data, value, replies);
    let (after, _) = store.put(disk, key, value, replies);
    lemma_get_run(after.visible, data, Ok(()));
}

/// After two `put`s of the same key that succeeded, a `get` returns the
/// second value, and nothing of the first is left: the directory is the one
/// that the second `put` alone would have made.
pub proof fn lemma_put_overwrites(
    store: FileSystemStableStorage,
    disk: Disk,
    key: Seq<char>,
    first: Seq<u8>,
    second: Seq<u8>,
    first_replies: spec_fn(PutStep) -> Result<(), String>,
    second_replies: spec_fn(PutStep) -> Result<(), String>,
)
    ensures
        ({
            let (between, first_result) = store.put(disk, key, first, first_replies);
            let (after, second_result) = store.put(between, key, second, second_replies);
            first_result is Ok && second_result is Ok ==> {
                &&& store.get(after, key, Ok(())) == Some(second)
                &&& after.visible == store.put(disk, key, second, second_replies).0.visible
            }
        }),
{
    let temp = store.temp_file_of(key);
    let data = store.data_file_of(key);
    lemma_files_are_distinct(store, key, key);
    let (between, first_result) = store.put(disk, key, first, first_replies);
    let (after, second_result) = store.put(between, key, second, second_replies);
    if first_result is Ok && second_result is Ok {
        lemma_put_run(disk, temp, data, first, first_replies);
        lemma_put_run(between, temp, data, second, second_replies);
        lemma_put_run(disk, temp, data, second, second_replies);
        lemma_get_run(after.visible, data, Ok(()));
        assert(after.visible =~= disk.visible.remove(temp).insert(data, second));
    }
}

/// Of a key that has no data file, a `get` returns absent, and a `remove`
/// answers `false` and leaves the disk as it was.
pub proof fn lemma_absent_key(
    store: FileSystemStableStorage,
    disk: Disk,
    key: Seq<char>,
    read: Result<(), String>,
    replies: spec_fn(RemoveStep) -> Result<(), String>,
)
    requires
        !exists_at(disk.visible, store.data_file_of(key)),
    ensures
        store.get(disk, key, read) is None,
        store.remove(disk, key, replies) == (disk, false),
{
    lemma_get_run(disk.visible, store.data_file_of(key), read);
    lemma_remove_run(disk, store.data_file_of(key), replies);
}

/// After a `put` that succeeded, a `remove` of the same key answers `true`
/// exactly when its deletion succeeds; after it a `get` returns absent and
/// a second `remove` answers `false`.
pub proof fn lemma_put_then_remove(
    store: FileSystemStableStorage,
    disk: Disk,
    key: Seq<char>,
    value: Seq<u8>,
    put_replies: spec_fn(PutStep) -> Result<(), String>,
    remove_replies: spec_fn(RemoveStep) -> Result<(), String>,
    read: Result<(), String>,
    again_replies: spec_fn(RemoveStep) -> Result<(), String>,
)
    ensures
        ({
            let (stored, result) = store.put(disk, key, value, put_replies);
            let (removed, answer) = store.remove(stored, key, remove_replies);
            result is Ok ==> {
                &&& answer <==> remove_replies(RemoveStep::Delete) is Ok
                &&& answer ==> {
                    &&& store.get(removed, key, read) is None
                    &&& store.remove(removed, key, again_replies) == (removed, false)
                }
            }
        }),
{
    let temp = store.temp_file_of(key);
    let data = store.data_file_of(key);
    lemma_files_are_distinct(store, key, key);
    let (stored, result) = store.put(disk, key, value, put_replies);
    let (removed, answer) = store.remove(stored, key, remove_replies);
    if result is Ok {
        lemma_put_run(disk, temp, data, value, put_replies);
        lemma_remove_run(stored, data, remove_replies);
        if answer {
            lemma_absent_key(store, removed, key, read, again_replies);
        }
    }
}

/// A `put` of a key or a value that is too long fails with
/// `InvalidArgument`, whatever the filesystem would have answered, and
/// leaves the disk as it was.
pub proof fn lemma_oversized_put_refused(
    store: FileSystemStableStorage,
    disk: Disk,
    key: Seq<char>,
    value: Seq<u8>,
    replies: spec_fn(PutStep) -> Result<(), String>,
)
    requires
        !fits(key, value),
    ensures
        store.put(disk, key, value, replies) == (disk, Err::<(), StorageError>(
            StorageError::InvalidArgument,
        )),
{
}

/// A `put` or a `remove` of one key, however it ends, changes nothing for
/// a key with another digest: a `get` of that key returns what it returned
/// before, and where its data file was settled it still is.
pub proof fn lemma_other_keys_are_untouched(
    store: FileSystemStableStorage,
    disk: Disk,
    key: Seq<char>,
    value: Seq<u8>,
    put_replies: spec_fn(PutStep) -> Result<(), String>,
    remove_replies: spec_fn(RemoveStep) -> Result<(), String>,
    other: Seq<char>,
    read: Result<(), String>,
)
    requires
        key_digest(key) != key_digest(other),
    ensures
        ({
            let stored = store.put(disk, key, value, put_replies).0;
            let removed = store.remove(disk, key, remove_replies).0;
            let elsewhere = store.data_file_of(other);
            &&& store.get(stored, other, read) == store.get(disk, other, read)
            &&& store.get(removed, other, read) == store.get(disk, other, read)
            &&& disk.settled_at(elsewhere) ==> stored.settled_at(elsewhere) && removed.settled_at(
                elsewhere,
            )
        }),
{
    let temp = store.temp_file_of(key);
    let data = store.data_file_of(key);
    let elsewhere = store.data_file_of(other);
    lemma_files_are_distinct(store, key, other);
    let stored = store.put(disk, key, value, put_replies).0;
    let removed = store.remove(disk, key, remove_replies).0;
    if fits(key, value) {
        lemma_put_run(disk, temp, data, value, put_replies);
        if disk.settled_at(elsewhere) {
            lemma_put_run_keeps_settled(disk, temp, data, value, put_replies, elsewhere);
        }
    }
    lemma_remove_run(disk, data, remove_replies);
    if disk.settled_at(elsewhere) {
        lemma_remove_run_keeps_settled(disk, data, remove_replies, elsewhere);
    }
    lemma_get_run(stored.visible, elsewhere, read);
    lemma_get_run(removed.visible, elsewhere, read);
    lemma_get_run(disk.visible, elsewhere, read);
}

/// After `put`s of two keys with different digests that both succeeded, a
/// `get` of each key returns the value that was put under it.
pub proof fn lemma_distinct_keys(
    store: FileSystemStableStorage,
    disk: Disk,
    first_key: Seq<char>,
    first_value: Seq<u8>,
    second_key: Seq<char>,
    second_value: Seq<u8>,
    first_replies: spec_fn(PutStep) -> Result<(), String>,
    second_replies: spec_fn(PutStep) -> Result<(), String>,
)
    requires
        key_digest(first_key) != key_digest(second_key),
    ensures
        ({
            let (between, first_result) = store.put(disk, first_key, first_value, first_replies);
            let (after, second_result) = store.put(
                between,
                second_key,
                second_value,
                second_replies,
            );
            first_result is Ok && second_result is Ok ==> {
                &&& store.get(after, first_key, Ok(())) == Some(first_value)
                &&& store.get(after, second_key, Ok(())) == Some(second_value)
            }
        }),
{
    let (between, _) = store.put(disk, first_key, first_value, first_replies);
    lemma_put_then_get(store, disk, first_key, first_value, first_replies);
    lemma_put_then_get(store, between, second_key, second_value, second_replies);
    lemma_other_keys_are_untouched(
        store,
        between,
        second_key,
        second_value,
        second_replies,
        |step: RemoveStep| Ok(()),
        first_key,
        Ok(()),
    );
}

/// A `put` that stops at a step, because the step failed or because the run
/// was cut short before it, leaves the key with a whole value: up to and
/// including the rename a `get` returns what it returned before the `put`,
/// and after the rename it returns the new value.
pub proof fn lemma_interrupted_put(
    store: FileSystemStableStorage,
    disk: Disk,
    key: Seq<char>,
    value: Seq<u8>,
    replies: spec_fn(PutStep) -> Result<(), String>,
)
    ensures
        ({
            let (after, result) = store.put(disk, key, value, replies);
            match result {
                Ok(_) => true,
                Err(StorageError::InvalidArgument) => after == disk,
                Err(StorageError::Io { step, cause }) => store.get(after, key, Ok(()))
                    == if step.before_commit() {
                    store.get(disk, key, Ok(()))
                } else {
                    Some(value)
                },
            }
        }),
{
    let temp = store.temp_file_of(key);
    let data = store.data_file_of(key);
    lemma_files_are_distinct(store, key, key);
    let (after, _) = store.put(disk, key, value, replies);
    if fits(key, value) {
        lemma_put_run(disk, temp, data, value, replies);
    }
    lemma_get_run(after.visible, data, Ok(()));
    lemma_get_run(disk.visible, data, Ok(()));
}

/// A value that was put lasts: once a `put` has succeeded, whatever
/// directory is found after a crash, a `get` of the key returns the value.
pub proof fn lemma_put_is_durable(
    store: FileSystemStableStorage,
    disk: Disk,
    key: Seq<char>,
    value: Seq<u8>,
    replies: spec_fn(PutStep) -> Result<(), String>,
    recovered: Directory,
)
    requires
        store.put(disk, key, value, replies).1 is Ok,
        store.put(disk, key, value, replies).0.may_recover_as(recovered),
    ensures
        store.get(Disk::settled(recovered), key, Ok(())) == Some(value),
{
    let temp = store.temp_file_of(key);
    let data = store.data_file_of(key);
    lemma_files_are_distinct(store, key, key);
    let (after, _) = store.put(disk, key, value, replies);
    lemma_put_run(disk, temp, data, value, replies);
    lemma_put_run_survives(disk, temp, data, value, replies);
    assert(after.may_recover(data, crate::disk::contents_at(recovered, data)));
    lemma_get_run(recovered, data, Ok(()));
}

/// A `put` is all or nothing, even across a crash: where the data file of
/// the key was settled before the `put`, whatever directory is found after
/// a crash during or after it, a `get` of the key returns the value it
/// returned before the `put`, or the whole new value; and only the former
/// where the `put` stopped before its rename had succeeded.
pub proof fn lemma_put_is_atomic(
    store: FileSystemStableStorage,
    disk: Disk,
    key: Seq<char>,
    value: Seq<u8>,
    replies: spec_fn(PutStep) -> Result<(), String>,
    recovered: Directory,
)
    requires
        disk.settled_at(store.data_file_of(key)),
        store.put(disk, key, value, replies).0.may_recover_as(recovered),
    ensures
        ({
            let result = store.put(disk, key, value, replies).1;
            let found = store.get(Disk::settled(recovered), key, Ok(()));
            &&& found == store.get(disk, key, Ok(())) || found == Some(value)
            &&& match result {
                Ok(_) => found == Some(value),
                Err(StorageError::InvalidArgument) => found == store.get(disk, key, Ok(())),
                Err(StorageError::Io { step, cause }) => step.before_commit() ==> found
                    == store.get(disk, key, Ok(())),
            }
        }),
{
    let temp = store.temp_file_of(key);
    let data = store.data_file_of(key);
    lemma_files_are_distinct(store, key, key);
    let (after, _) = store.put(disk, key, value, replies);
    if fits(key, value) {
        lemma_put_run(disk, temp, data, value, replies);
        lemma_put_run_survives(disk, temp, data, value, replies);
    }
    assert(after.may_recover(data, crate::disk::contents_at(recovered, data)));
    lemma_get_run(recovered, data, Ok(()));
    lemma_get_run(disk.visible, data, Ok(()));
}

/// A removal lasts once the storage root is synced: after a `remove` whose
/// steps all succeeded, whatever directory is found after a crash, a `get`
/// of the key returns absent. Where the data file of the key was settled
/// before a `remove`, a crash during or after it leaves the key absent or
/// with the value it had.
pub proof fn lemma_remove_is_durable(
    store: FileSystemStableStorage,
    disk: Disk,
    key: Seq<char>,
    replies: spec_fn(RemoveStep) -> Result<(), String>,
    recovered: Directory,
)
    requires
        disk.settled_at(store.data_file_of(key)),
        store.remove(disk, key, replies).0.may_recover_as(recovered),
    ensures
        ({
            let answer = store.remove(disk, key, replies).1;
            let found = store.get(Disk::settled(recovered), key, Ok(()));
            &&& found is None || found == store.get(disk, key, Ok(()))
            &&& answer && (forall|step: RemoveStep| (#[trigger] replies(step)) is Ok)
                ==> found is None
        }),
{
    let data = store.data_file_of(key);
    let (after, _) = store.remove(disk, key, replies);
    lemma_remove_run(disk, data, replies);
    lemma_remove_run_survives(disk, data, replies);
    assert(after.may_recover(data, crate::disk::contents_at(recovered, data)));
    lemma_get_run(recovered, data, Ok(()));
    lemma_get_run(disk.visible, data, Ok(()));
}

} // verus!

use stable_storage::error::StorageError;
use stable_storage::get::{get_after_probe, get_after_read, GetNext};
use stable_storage::put::{put_first, put_next, PutNext, PutStep};
use stable_storage::remove::{remove_after_probe, remove_next, RemoveNext, RemoveStep};
use stable_storage::store::{build_stable_storage, FileSystemStableStorage};
use std::collections::HashMap;

/// A directory in memory: each path with the bytes of its file.
type Files = HashMap<String, Vec<u8>>;

/// Drives a `put` on `files`; the step `fail_at`, if any, fails without
/// effect.
fn put(
    store: &FileSystemStableStorage,
    files: &mut Files,
    key: &str,
    value: &[u8],
    fail_at: Option<PutStep>,
) -> Result<(), StorageError> {
    let paths = store.begin_put(key, value)?;
    let mut step = put_first();
    loop {
        let outcome = if fail_at == Some(step) {
            Err(String::from("injected"))
        } else {
            match step {
                PutStep::CreateTemp => {
                    files.insert(paths.temp_file.clone(), Vec::new());
                }
                PutStep::WriteTemp => {
                    files.get_mut(&paths.temp_file).unwrap().extend_from_slice(value);
                }
                PutStep::RenameTemp => {
                    let staged = files.remove(&paths.temp_file).unwrap();
                    files.insert(paths.data_file.clone(), staged);
                }
                PutStep::SyncTemp | PutStep::OpenRoot | PutStep::SyncRoot => {}
            }
            Ok(())
        };
        match put_next(step, outcome) {
            PutNext::Perform(next) => step = next,
            PutNext::Finished(result) => return result,
        }
    }
}

/// Drives a `get` on `files`.
fn get(store: &FileSystemStableStorage, files: &Files, key: &str) -> Option<Vec<u8>> {
    let path = store.data_file(key);
    match get_after_probe(files.contains_key(&path)) {
        GetNext::Absent => None,
        GetNext::ReadData => get_after_read(Ok(files[&path].clone())),
    }
}

/// Drives a `remove` on `files`; the step `fail_at`, if any, fails without
/// effect.
fn remove(
    store: &FileSystemStableStorage,
    files: &mut Files,
    key: &str,
    fail_at: Option<RemoveStep>,
) -> bool {
    let path = store.data_file(key);
    let mut next = remove_after_probe(files.contains_key(&path));
    loop {
        match next {
            RemoveNext::Finished(answer) => return answer,
            RemoveNext::Perform(step) => {
                let outcome = if fail_at == Some(step) {
                    Err(String::from("injected"))
                } else {
                    if step == RemoveStep::Delete {
                        files.remove(&path);
                    }
                    Ok(())
                };
                next = remove_next(step, outcome);
            }
        }
    }
}

fn store() -> FileSystemStableStorage {
    build_stable_storage(String::from("/store"))
}

#[test]
fn put_then_get_returns_the_value() {
    let store = store();
    let mut files = Files::new();
    assert_eq!(put(&store, &mut files, "key", b"value", None), Ok(()));
    assert_eq!(get(&store, &files, "key"), Some(b"value".to_vec()));
}

#[test]
fn put_leaves_one_data_file_and_no_temp_file() {
    let store = store();
    let mut files = Files::new();
    assert_eq!(put(&store, &mut files, "key", &[0, 255, 10, 13], None), Ok(()));
    let mut expected = Files::new();
    expected.insert(
        String::from("/store/'LHDhK3oGRvkiefQnx7OOczTY5TicxZ6HcMOcgmtoM='.data"),
        vec![0, 255, 10, 13],
    );
    assert_eq!(files, expected);
}

#[test]
fn empty_value_round_trips() {
    let store = store();
    let mut files = Files::new();
    assert_eq!(put(&store, &mut files, "", b"", None), Ok(()));
    assert_eq!(get(&store, &files, ""), Some(Vec::new()));
}

#[test]
fn largest_value_round_trips() {
    let store = store();
    let mut files = Files::new();
    let key = "k".repeat(255);
    let value: Vec<u8> = (0..65535u32).map(|i| (i % 251) as u8).collect();
    assert_eq!(put(&store, &mut files, &key, &value, None), Ok(()));
    assert_eq!(get(&store, &files, &key), Some(value));
}

#[test]
fn second_put_overwrites_the_first() {
    let store = store();
    let mut files = Files::new();
    assert_eq!(put(&store, &mut files, "key", b"a long first value", None), Ok(()));
    assert_eq!(put(&store, &mut files, "key", b"second", None), Ok(()));
    assert_eq!(get(&store, &files, "key"), Some(b"second".to_vec()));

    let mut only_second = Files::new();
    assert_eq!(put(&store, &mut only_second, "key", b"second", None), Ok(()));
    assert_eq!(files, only_second);
}

#[test]
fn unwritten_key_is_absent() {
    let store = store();
    let mut files = Files::new();
    assert_eq!(get(&store, &files, "never"), None);
    assert!(!remove(&store, &mut files, "never", None));
    assert!(files.is_empty());

    assert_eq!(put(&store, &mut files, "other", b"v", None), Ok(()));
    assert_eq!(get(&store, &files, "never"), None);
    assert!(!remove(&store, &mut files, "never", None));
    assert_eq!(files.len(), 1);
}

#[test]
fn remove_deletes_the_value() {
    let store = store();
    let mut files = Files::new();
    assert_eq!(put(&store, &mut files, "key", b"value", None), Ok(()));
    assert!(remove(&store, &mut files, "key", None));
    assert_eq!(get(&store, &files, "key"), None);
    assert!(!remove(&store, &mut files, "key", None));
    assert!(files.is_empty());
}

#[test]
fn failed_deletion_keeps_the_value() {
    let store = store();
    let mut files = Files::new();
    assert_eq!(put(&store, &mut files, "key", b"value", None), Ok(()));
    assert!(!remove(&store, &mut files, "key", Some(RemoveStep::Delete)));
    assert_eq!(get(&store, &files, "key"), Some(b"value".to_vec()));
}

#[test]
fn failed_sync_after_deletion_still_answers_true() {
    let store = store();
    for step in [RemoveStep::OpenRoot, RemoveStep::SyncRoot] {
        let mut files = Files::new();
        assert_eq!(put(&store, &mut files, "key", b"value", None), Ok(()));
        assert!(remove(&store, &mut files, "key", Some(step)));
        assert_eq!(get(&store, &files, "key"), None);
    }
}

#[test]
fn oversized_key_leaves_no_file() {
    let store = store();
    let mut files = Files::new();
    let key = "k".repeat(256);
    assert_eq!(put(&store, &mut files, &key, b"v", None), Err(StorageError::InvalidArgument));
    assert!(files.is_empty());
    assert_eq!(get(&store, &files, &key), None);
}

#[test]
fn oversized_value_leaves_no_file() {
    let store = store();
    let mut files = Files::new();
    assert_eq!(put(&store, &mut files, "key", b"old", None), Ok(()));
    let before = files.clone();
    let value = vec![1u8; 65536];
    assert_eq!(put(&store, &mut files, "key", &value, None), Err(StorageError::InvalidArgument));
    assert_eq!(files, before);
    assert_eq!(get(&store, &files, "key"), Some(b"old".to_vec()));
}

#[test]
fn two_keys_keep_their_own_values() {
    let store = store();
    let mut files = Files::new();
    assert_eq!(put(&store, &mut files, "k1", b"v1", None), Ok(()));
    assert_eq!(put(&store, &mut files, "k2", b"v2", None), Ok(()));
    assert_eq!(get(&store, &files, "k1"), Some(b"v1".to_vec()));
    assert_eq!(get(&store, &files, "k2"), Some(b"v2".to_vec()));
    assert!(remove(&store, &mut files, "k1", None));
    assert_eq!(get(&store, &files, "k1"), None);
    assert_eq!(get(&store, &files, "k2"), Some(b"v2".to_vec()));
}

#[test]
fn keys_that_differ_only_in_separators_are_distinct() {
    let store = store();
    let mut files = Files::new();
    assert_eq!(put(&store, &mut files, "a/b", b"slash", None), Ok(()));
    assert_eq!(put(&store, &mut files, "ab", b"plain", None), Ok(()));
    assert_eq!(get(&store, &files, "a/b"), Some(b"slash".to_vec()));
    assert_eq!(get(&store, &files, "ab"), Some(b"plain".to_vec()));
}

#[test]
fn put_interrupted_before_the_rename_keeps_the_old_state() {
    let store = store();
    let early = [PutStep::CreateTemp, PutStep::WriteTemp, PutStep::SyncTemp, PutStep::RenameTemp];
    for step in early {
        let mut fresh = Files::new();
        let failure = StorageError::Io { step, cause: String::from("injected") };
        assert_eq!(put(&store, &mut fresh, "key", b"new", Some(step)), Err(failure));
        assert_eq!(get(&store, &fresh, "key"), None);

        let mut written = Files::new();
        assert_eq!(put(&store, &mut written, "key", b"old value", None), Ok(()));
        assert!(put(&store, &mut written, "key", b"new", Some(step)).is_err());
        assert_eq!(get(&store, &written, "key"), Some(b"old value".to_vec()));
    }
}

#[test]
fn put_interrupted_after_the_rename_shows_the_new_value() {
    let store = store();
    for step in [PutStep::OpenRoot, PutStep::SyncRoot] {
        let mut files = Files::new();
        assert_eq!(put(&store, &mut files, "key", b"old value", None), Ok(()));
        let failure = StorageError::Io { step, cause: String::from("injected") };
        assert_eq!(put(&store, &mut files, "key", b"new", Some(step)), Err(failure));
        assert_eq!(get(&store, &files, "key"), Some(b"new".to_vec()));
    }
}

#[test]
fn stale_temp_file_is_never_read() {
    let store = store();
    let mut files = Files::new();
    assert!(put(&store, &mut files, "key", b"half written", Some(PutStep::SyncTemp)).is_err());
    assert_eq!(files.len(), 1);
    assert_eq!(get(&store, &files, "key"), None);
    assert!(!remove(&store, &mut files, "key", None));
    assert_eq!(put(&store, &mut files, "key", b"whole", None), Ok(()));
    assert_eq!(get(&store, &files, "key"), Some(b"whole".to_vec()));
    assert_eq!(files.len(), 1);
}

/// Performs one step of a `put` on `files`.
fn perform(files: &mut Files, temp_file: &str, data_file: &str, value: &[u8], step: PutStep) {
    match step {
        PutStep::CreateTemp => {
            files.insert(String::from(temp_file), Vec::new());
        }
        PutStep::WriteTemp => {
            files.get_mut(temp_file).unwrap().extend_from_slice(value);
        }
        PutStep::RenameTemp => {
            let staged = files.remove(temp_file).unwrap();
            files.insert(String::from(data_file), staged);
        }
        PutStep::SyncTemp | PutStep::OpenRoot | PutStep::SyncRoot => {}
    }
}

#[test]
fn puts_of_two_keys_may_interleave() {
    let store = store();
    let mut files = Files::new();
    assert_eq!(put(&store, &mut files, "k1", b"old one", None), Ok(()));

    let first = store.begin_put("k1", b"new one").unwrap();
    let second = store.begin_put("k2", b"new two").unwrap();
    let mut first_next = PutNext::Perform(put_first());
    let mut second_next = PutNext::Perform(put_first());
    let mut turns = 0;
    while first_next != PutNext::Finished(Ok(())) || second_next != PutNext::Finished(Ok(())) {
        if let PutNext::Perform(step) = first_next {
            perform(&mut files, &first.temp_file, &first.data_file, b"new one", step);
            first_next = put_next(step, Ok(()));
        }
        if turns % 2 == 1 {
            if let PutNext::Perform(step) = second_next {
                perform(&mut files, &second.temp_file, &second.data_file, b"new two", step);
                second_next = put_next(step, Ok(()));
            }
        }
        let seen = get(&store, &files, "k1").unwrap();
        assert!(seen == b"old one" || seen == b"new one");
        let other = get(&store, &files, "k2");
        assert!(other.is_none() || other == Some(b"new two".to_vec()));
        turns += 1;
    }
    assert_eq!(turns, 12);
    assert_eq!(get(&store, &files, "k1"), Some(b"new one".to_vec()));
    assert_eq!(get(&store, &files, "k2"), Some(b"new two".to_vec()));
    assert_eq!(files.len(), 2);
}

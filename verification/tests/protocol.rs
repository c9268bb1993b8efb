use stable_storage::error::StorageError;
use stable_storage::get::{get_after_probe, get_after_read, GetNext};
use stable_storage::put::{put_first, put_next, PutNext, PutStep};
use stable_storage::remove::{remove_after_probe, remove_next, RemoveNext, RemoveStep};
use stable_storage::store::{FileSystemStableStorage, MAX_KEY_LEN, MAX_VALUE_LEN};

fn failed(cause: &str) -> Result<(), String> {
    Err(String::from(cause))
}

#[test]
fn put_steps_follow_in_order() {
    assert_eq!(put_first(), PutStep::CreateTemp);
    assert_eq!(put_next(PutStep::CreateTemp, Ok(())), PutNext::Perform(PutStep::WriteTemp));
    assert_eq!(put_next(PutStep::WriteTemp, Ok(())), PutNext::Perform(PutStep::SyncTemp));
    assert_eq!(put_next(PutStep::SyncTemp, Ok(())), PutNext::Perform(PutStep::RenameTemp));
    assert_eq!(put_next(PutStep::RenameTemp, Ok(())), PutNext::Perform(PutStep::OpenRoot));
    assert_eq!(put_next(PutStep::OpenRoot, Ok(())), PutNext::Perform(PutStep::SyncRoot));
    assert_eq!(put_next(PutStep::SyncRoot, Ok(())), PutNext::Finished(Ok(())));
}

#[test]
fn put_stops_at_the_first_failure() {
    let steps = [
        PutStep::CreateTemp,
        PutStep::WriteTemp,
        PutStep::SyncTemp,
        PutStep::RenameTemp,
        PutStep::OpenRoot,
        PutStep::SyncRoot,
    ];
    for step in steps {
        assert_eq!(
            put_next(step, failed("disk full")),
            PutNext::Finished(Err(StorageError::Io { step, cause: String::from("disk full") }))
        );
    }
}

#[test]
fn messages_name_the_failed_step() {
    let message = |step: PutStep| StorageError::Io { step, cause: String::from("denied") }.message();
    assert_eq!(message(PutStep::CreateTemp), "Error creating temp file in directory: denied");
    assert_eq!(message(PutStep::WriteTemp), "Error writing to temp file: denied");
    assert_eq!(message(PutStep::SyncTemp), "Error syncing temp file: denied");
    assert_eq!(message(PutStep::RenameTemp), "Error renaming temp file: denied");
    assert_eq!(message(PutStep::OpenRoot), "Error opening root storage directory: denied");
    assert_eq!(message(PutStep::SyncRoot), "Error syncing directory: denied");
}

#[test]
fn message_of_an_invalid_argument() {
    assert_eq!(StorageError::InvalidArgument.message(), "Invalid key or value length");
}

#[test]
fn message_with_an_empty_cause() {
    let error = StorageError::Io { step: PutStep::SyncTemp, cause: String::new() };
    assert_eq!(error.message(), "Error syncing temp file: ");
}

#[test]
fn longest_key_and_value_are_accepted() {
    let store = FileSystemStableStorage::new(String::from("/s"));
    let key = "k".repeat(MAX_KEY_LEN);
    let value = vec![7u8; MAX_VALUE_LEN];
    let files = store.begin_put(&key, &value).unwrap();
    assert_eq!(files, store.files(&key));
    assert_eq!(MAX_KEY_LEN, 255);
    assert_eq!(MAX_VALUE_LEN, 65535);
}

#[test]
fn empty_key_and_value_are_accepted() {
    let store = FileSystemStableStorage::new(String::from("/s"));
    let files = store.begin_put("", &[]).unwrap();
    assert_eq!(files.data_file, "/s/'47DEQpj8HBSa+TImW+5JCeuQeRkm5NMpJWZG3hSuFU='.data");
    assert_eq!(files.temp_file, "/s/'47DEQpj8HBSa+TImW+5JCeuQeRkm5NMpJWZG3hSuFU='.tmp");
}

#[test]
fn key_of_256_bytes_is_refused() {
    let store = FileSystemStableStorage::new(String::from("/s"));
    let key = "k".repeat(256);
    assert_eq!(store.begin_put(&key, b"v"), Err(StorageError::InvalidArgument));
}

#[test]
fn value_of_65536_bytes_is_refused() {
    let store = FileSystemStableStorage::new(String::from("/s"));
    let value = vec![0u8; 65536];
    assert_eq!(store.begin_put("k", &value), Err(StorageError::InvalidArgument));
}

#[test]
fn key_length_counts_bytes() {
    let store = FileSystemStableStorage::new(String::from("/s"));
    // 128 characters of two bytes each: 256 bytes.
    let wide = "é".repeat(128);
    assert_eq!(store.begin_put(&wide, b"v"), Err(StorageError::InvalidArgument));
    // 127 of them and one of one byte: 255 bytes.
    let fitting = format!("{}x", "é".repeat(127));
    assert!(store.begin_put(&fitting, b"v").is_ok());
}

#[test]
fn get_reads_only_an_existing_file() {
    assert_eq!(get_after_probe(true), GetNext::ReadData);
    assert_eq!(get_after_probe(false), GetNext::Absent);
}

#[test]
fn get_returns_what_was_read() {
    assert_eq!(get_after_read(Ok(vec![1, 2, 3])), Some(vec![1, 2, 3]));
    assert_eq!(get_after_read(Ok(Vec::new())), Some(Vec::new()));
}

#[test]
fn get_takes_a_failed_read_as_absent() {
    assert_eq!(get_after_read(Err(String::from("permission denied"))), None);
}

#[test]
fn remove_deletes_only_an_existing_file() {
    assert_eq!(remove_after_probe(true), RemoveNext::Perform(RemoveStep::Delete));
    assert_eq!(remove_after_probe(false), RemoveNext::Finished(false));
}

#[test]
fn remove_syncs_the_root_after_a_deletion() {
    assert_eq!(remove_next(RemoveStep::Delete, Ok(())), RemoveNext::Perform(RemoveStep::OpenRoot));
    assert_eq!(remove_next(RemoveStep::OpenRoot, Ok(())), RemoveNext::Perform(RemoveStep::SyncRoot));
    assert_eq!(remove_next(RemoveStep::SyncRoot, Ok(())), RemoveNext::Finished(true));
}

#[test]
fn remove_answers_false_where_the_deletion_fails() {
    assert_eq!(remove_next(RemoveStep::Delete, failed("busy")), RemoveNext::Finished(false));
}

#[test]
fn remove_answers_true_where_only_the_sync_fails() {
    assert_eq!(remove_next(RemoveStep::OpenRoot, failed("gone")), RemoveNext::Finished(true));
    assert_eq!(remove_next(RemoveStep::SyncRoot, failed("io")), RemoveNext::Finished(true));
}

use stable_storage::paths::{data_file_path, temp_file_path};
use stable_storage::store::{build_stable_storage, FileSystemStableStorage, KeyFiles};

#[test]
fn data_file_is_quoted_stem_with_suffix() {
    assert_eq!(data_file_path("/var/store", "abc"), "/var/store/'abc'.data");
    assert_eq!(data_file_path("", ""), "/''.data");
    assert_eq!(data_file_path("relative/dir", "x+y="), "relative/dir/'x+y='.data");
}

#[test]
fn temp_file_is_quoted_stem_with_suffix() {
    assert_eq!(temp_file_path("/var/store", "abc"), "/var/store/'abc'.tmp");
    assert_eq!(temp_file_path("", ""), "/''.tmp");
}

#[test]
fn temp_and_data_file_differ() {
    assert_ne!(temp_file_path("/r", "abc"), data_file_path("/r", "abc"));
    assert_ne!(temp_file_path("/r", "abc.data"), data_file_path("/r", "abc.tmp"));
}

#[test]
fn store_names_the_files_of_a_key() {
    let store = FileSystemStableStorage::new(String::from("/var/store"));
    assert_eq!(store.root_dir(), "/var/store");
    assert_eq!(
        store.data_file("hello world"),
        "/var/store/'uU0nuZNNPgilLlLX2n2r+sSE7+N6U4DukIj3rOLvzek='.data"
    );
    assert_eq!(
        store.files("key"),
        KeyFiles {
            temp_file: String::from("/var/store/'LHDhK3oGRvkiefQnx7OOczTY5TicxZ6HcMOcgmtoM='.tmp"),
            data_file: String::from("/var/store/'LHDhK3oGRvkiefQnx7OOczTY5TicxZ6HcMOcgmtoM='.data"),
        }
    );
}

#[test]
fn files_stay_directly_under_the_root() {
    let store = build_stable_storage(String::from("/var/store"));
    for key in ["../../etc/passwd", "/abs", "a/b/c", ".."] {
        let files = store.files(key);
        for path in [files.temp_file, files.data_file] {
            let name = path.strip_prefix("/var/store/").unwrap();
            assert!(!name.contains('/'));
            assert!(name.starts_with('\''));
        }
    }
}

#[test]
fn built_store_keeps_its_root() {
    let store = build_stable_storage(String::from("data dir"));
    assert_eq!(store.root_dir(), "data dir");
    assert_eq!(store.data_file("b"), "data dir/'PiPoFgA5WUoziU9lZOGxNIu9egCI1CxKy3PurtWcAJ0='.data");
}

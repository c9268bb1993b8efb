//! The store: a storage root, and the three operations on keys under it.

use crate::disk::Disk;
use crate::encoder::{hash_key, key_digest};
use crate::error::StorageError;
use crate::get::get_run;
use crate::paths::{data_file_path, data_path, temp_file_path, temp_path};
use crate::put::{first_put_step, put_run, PutStep};
use crate::remove::{remove_run, RemoveStep};
use vstd::prelude::*;
use vstd::string::StringSliceAdditionalSpecFns;

verus! {

/// The longest key that the store accepts, in bytes.
pub const MAX_KEY_LEN: usize = 255;

/// The longest value that the store accepts, in bytes.
pub const MAX_VALUE_LEN: usize = 65535;

/// Whether the store accepts `key` with `value`: neither is longer than its
/// bound.
pub open spec fn fits(key: Seq<char>, value: Seq<u8>) -> bool {
    vstd::utf8::encode_utf8(key).len() <= MAX_KEY_LEN && value.len() <= MAX_VALUE_LEN
}

/// A key-value store in the directory `root_storage_dir`, which exists and
/// can be written to.
pub struct FileSystemStableStorage {
    root_storage_dir: String,
}

/// The two files of one key.
#[derive(Debug, PartialEq, Eq)]
pub struct KeyFiles {
    /// The file in which a new value is staged.
    pub temp_file: String,
    /// The file that holds the committed value.
    pub data_file: String,
}

impl FileSystemStableStorage {
    /// The path of the storage root.
    pub closed spec fn root(&self) -> Seq<char> {
        self.root_storage_dir@
    }

    /// The path of the data file of `key`.
    pub open spec fn data_file_of(&self, key: Seq<char>) -> Seq<char> {
        data_path(self.root(), key_digest(key))
    }

    /// The path of the temporary file of `key`.
    pub open spec fn temp_file_of(&self, key: Seq<char>) -> Seq<char> {
        temp_path(self.root(), key_digest(key))
    }

    /// A store in the directory `root_storage_dir`.
    pub fn new(root_storage_dir: String) -> (store: Self)
        ensures
            store.root() == root_storage_dir@,
    {
        FileSystemStableStorage { root_storage_dir }
    }

    /// The path of the storage root.
    pub fn root_dir(&self) -> (path: &str)
        ensures
            path@ == self.root(),
    {
        self.root_storage_dir.as_str()
    }

    /// The path of the data file of `key`: the file that a `get` reads and a
    /// `remove` deletes.
    pub fn data_file(&self, key: &str) -> (path: String)
        ensures
            path@ == self.data_file_of(key@),
    {
        let stem = hash_key(key);
        data_file_path(self.root_storage_dir.as_str(), stem.as_str())
    }

    /// The two files of `key`.
    pub fn files(&self, key: &str) -> (files: KeyFiles)
        ensures
            files.temp_file@ == self.temp_file_of(key@),
            files.data_file@ == self.data_file_of(key@),
    {
        let stem = hash_key(key);
        KeyFiles {
            temp_file: temp_file_path(self.root_storage_dir.as_str(), stem.as_str()),
            data_file: data_file_path(self.root_storage_dir.as_str(), stem.as_str()),
        }
    }

    /// Begins a `put`: checks the bounds, and names the files to work on.
    /// A key or a value that is too long is refused before any file is
    /// touched.
    pub fn begin_put(&self, key: &str, value: &[u8]) -> (start: Result<KeyFiles, StorageError>)
        ensures
            match start {
                Ok(files) => {
                    &&& fits(key@, value@)
                    &&& files.temp_file@ == self.temp_file_of(key@)
                    &&& files.data_file@ == self.data_file_of(key@)
                },
                Err(error) => !fits(key@, value@) && error == StorageError::InvalidArgument,
            },
    {
        if key.as_bytes().len() > MAX_KEY_LEN || value.len() > MAX_VALUE_LEN {
            return Err(StorageError::InvalidArgument);
        }
        Ok(self.files(key))
    }

    /// A whole `put` of `value` under `key` on `disk`: the disk it leaves
    /// and the result it returns, where `replies` says how each step goes.
    pub open spec fn put(
        &self,
        disk: Disk,
        key: Seq<char>,
        value: Seq<u8>,
        replies: spec_fn(PutStep) -> Result<(), String>,
    ) -> (Disk, Result<(), StorageError>) {
        if fits(key, value) {
            put_run(
                disk,
                self.temp_file_of(key),
                self.data_file_of(key),
                value,
                first_put_step(),
                replies,
            )
        } else {
            (disk, Err(StorageError::InvalidArgument))
        }
    }

    /// A whole `get` of `key` on `disk`: what it returns, where `read`
    /// says whether the read goes well.
    pub open spec fn get(&self, disk: Disk, key: Seq<char>, read: Result<(), String>) -> Option<
        Seq<u8>,
    > {
        get_run(disk.visible, self.data_file_of(key), read)
    }

    /// A whole `remove` of `key` on `disk`: the disk it leaves and the
    /// answer it returns, where `replies` says how each step goes.
    pub open spec fn remove(
        &self,
        disk: Disk,
        key: Seq<char>,
        replies: spec_fn(RemoveStep) -> Result<(), String>,
    ) -> (Disk, bool) {
        remove_run(disk, self.data_file_of(key), replies)
    }
}

/// Creates a store in the directory `root_storage_dir`.
pub fn build_stable_storage(root_storage_dir: String) -> (store: FileSystemStableStorage)
    ensures
        store.root() == root_storage_dir@,
{
    FileSystemStableStorage::new(root_storage_dir)
}

} // verus!

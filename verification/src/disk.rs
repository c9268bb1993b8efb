//! The storage directory and the disk under it, as the store sees them.
//!
//! A directory is taken as a map from the path of each file in it to the
//! bytes that the file holds. A disk is a directory together with what a
//! crash may leave of it: bytes that were written but not synced may be
//! lost or mangled, and a file that was created, renamed or deleted may
//! still be found under its old name, or not at all, until the directory
//! itself is synced. What the store's filesystem operations do is defined
//! here, and what the store promises is stated over these definitions.

use vstd::prelude::*;

verus! {

/// The files of a directory: each path with the bytes of its file.
pub type Directory = Map<Seq<char>, Seq<u8>>;

/// Whether a file lies at `path`.
pub open spec fn exists_at(dir: Directory, path: Seq<char>) -> bool {
    dir.dom().contains(path)
}

/// The bytes of the file at `path`, if one lies there.
pub open spec fn contents_at(dir: Directory, path: Seq<char>) -> Option<Seq<u8>> {
    if exists_at(dir, path) {
        Some(dir[path])
    } else {
        None
    }
}

/// A directory on a disk that may crash.
pub struct Disk {
    /// The files as the running system sees them.
    pub visible: Directory,
    /// The paths of the visible files whose bytes have been synced since
    /// they were last written.
    pub synced: Set<Seq<char>>,
    /// What a crash may leave: the pair of a path and `Some` bytes is in
    /// the set where recovery may find a file with those bytes at the path,
    /// the pair of a path and `None` where it may find no file there.
    pub survivors: Set<(Seq<char>, Option<Seq<u8>>)>,
}

impl Disk {
    /// A disk on which nothing is pending: a crash leaves `dir` as it is.
    pub open spec fn settled(dir: Directory) -> Disk {
        Disk {
            visible: dir,
            synced: dir.dom(),
            survivors: Set::new(
                |entry: (Seq<char>, Option<Seq<u8>>)| entry.1 == contents_at(dir, entry.0),
            ),
        }
    }

    /// Whether recovery from a crash may find `found` at `path`.
    pub open spec fn may_recover(self, path: Seq<char>, found: Option<Seq<u8>>) -> bool {
        self.survivors.contains((path, found))
    }

    /// Whether recovery from a crash may find the directory `dir`.
    pub open spec fn may_recover_as(self, dir: Directory) -> bool {
        forall|path: Seq<char>| #[trigger] self.may_recover(path, contents_at(dir, path))
    }

    /// Whether `path` is settled: a crash leaves there exactly what is
    /// visible there now.
    pub open spec fn settled_at(self, path: Seq<char>) -> bool {
        &&& exists_at(self.visible, path) ==> self.synced.contains(path)
        &&& forall|found: Option<Seq<u8>>| #[trigger]
            self.may_recover(path, found) <==> found == contents_at(self.visible, path)
    }

    /// Creates the file at `path`, or empties it. Until it is synced, a
    /// crash may leave anything there.
    pub open spec fn create(self, path: Seq<char>) -> Disk {
        self.write(path, Seq::empty())
    }

    /// Makes `bytes` the contents of the file at `path`. Until it is
    /// synced, a crash may leave anything there.
    pub open spec fn write(self, path: Seq<char>, bytes: Seq<u8>) -> Disk {
        Disk {
            visible: self.visible.insert(path, bytes),
            synced: self.synced.remove(path),
            survivors: Set::new(
                |entry: (Seq<char>, Option<Seq<u8>>)|
                    entry.0 == path || self.survivors.contains(entry),
            ),
        }
    }

    /// Syncs the bytes of the file at `path`. A crash then leaves the file
    /// with its whole contents, if it leaves the file at all.
    pub open spec fn sync_file(self, path: Seq<char>) -> Disk {
        if exists_at(self.visible, path) {
            Disk {
                visible: self.visible,
                synced: self.synced.insert(path),
                survivors: Set::new(
                    |entry: (Seq<char>, Option<Seq<u8>>)|
                        if entry.0 == path {
                            ||| entry.1 == Some(self.visible[path])
                            ||| entry.1 is None && self.survivors.contains(entry)
                        } else {
                            self.survivors.contains(entry)
                        },
                ),
            }
        } else {
            self
        }
    }

    /// Renames the file at `from` to `to`, in one step: `to` holds its old
    /// contents or those of `from`, never anything between. A crash may
    /// undo the renaming, wholly or in part, until the directory is synced.
    pub open spec fn rename(self, from: Seq<char>, to: Seq<char>) -> Disk {
        if exists_at(self.visible, from) && from != to {
            Disk {
                visible: self.visible.remove(from).insert(to, self.visible[from]),
                synced: if self.synced.contains(from) {
                    self.synced.remove(from).insert(to)
                } else {
                    self.synced.remove(from).remove(to)
                },
                survivors: Set::new(
                    |entry: (Seq<char>, Option<Seq<u8>>)|
                        {
                            ||| self.survivors.contains(entry)
                            ||| entry.0 == from && entry.1 is None
                            ||| entry.0 == to && entry.1 is Some && self.survivors.contains(
                                (from, entry.1),
                            )
                        },
                ),
            }
        } else {
            self
        }
    }

    /// Deletes the file at `path`. A crash may bring it back until the
    /// directory is synced.
    pub open spec fn delete(self, path: Seq<char>) -> Disk {
        Disk {
            visible: self.visible.remove(path),
            synced: self.synced.remove(path),
            survivors: Set::new(
                |entry: (Seq<char>, Option<Seq<u8>>)|
                    self.survivors.contains(entry) || entry.0 == path && entry.1 is None,
            ),
        }
    }

    /// Syncs the directory. A crash then leaves every visible file under
    /// its name, and no file under any other name; a file whose bytes were
    /// synced keeps them, another may hold anything.
    pub open spec fn sync_dir(self) -> Disk {
        Disk {
            visible: self.visible,
            synced: self.synced,
            survivors: Set::new(
                |entry: (Seq<char>, Option<Seq<u8>>)|
                    match contents_at(self.visible, entry.0) {
                        Some(bytes) => if self.synced.contains(entry.0) {
                            entry.1 == Some(bytes)
                        } else {
                            entry.1 is Some
                        },
                        None => entry.1 is None,
                    },
            ),
        }
    }
}

/// An operation leaves the other files as settled as they were: where a
/// path was settled on `disk`, it is settled after every operation on
/// other paths, and after a sync of the directory.
pub proof fn lemma_settled_elsewhere(
    disk: Disk,
    path: Seq<char>,
    target: Seq<char>,
    other: Seq<char>,
    bytes: Seq<u8>,
)
    requires
        disk.settled_at(path),
        path != target,
        path != other,
    ensures
        disk.create(target).settled_at(path),
        disk.write(target, bytes).settled_at(path),
        disk.sync_file(target).settled_at(path),
        disk.rename(target, other).settled_at(path),
        disk.delete(target).settled_at(path),
        disk.sync_dir().settled_at(path),
{
    assert forall|found: Option<Seq<u8>>| #[trigger]
        disk.write(target, bytes).may_recover(path, found) implies found == contents_at(
        disk.visible,
        path,
    ) by {
        assert(disk.may_recover(path, found));
    }
    assert forall|found: Option<Seq<u8>>| #[trigger]
        disk.create(target).may_recover(path, found) implies found == contents_at(
        disk.visible,
        path,
    ) by {
        assert(disk.may_recover(path, found));
    }
    assert forall|found: Option<Seq<u8>>| #[trigger]
        disk.sync_file(target).may_recover(path, found) implies found == contents_at(
        disk.visible,
        path,
    ) by {
        assert(disk.may_recover(path, found));
    }
    assert forall|found: Option<Seq<u8>>| #[trigger]
        disk.rename(target, other).may_recover(path, found) implies found == contents_at(
        disk.visible,
        path,
    ) by {
        assert(disk.may_recover(path, found));
    }
    assert forall|found: Option<Seq<u8>>| #[trigger]
        disk.delete(target).may_recover(path, found) implies found == contents_at(
        disk.visible,
        path,
    ) by {
        assert(disk.may_recover(path, found));
    }
    assert(disk.may_recover(path, contents_at(disk.visible, path)));
}

/// On a settled disk every path is settled, and a crash may leave the
/// directory as it is.
pub proof fn lemma_settled_disk(dir: Directory)
    ensures
        forall|path: Seq<char>| #[trigger] Disk::settled(dir).settled_at(path),
        Disk::settled(dir).may_recover_as(dir),
        forall|other: Directory| Disk::settled(dir).may_recover_as(other) ==> other == dir,
{
    let disk = Disk::settled(dir);
    assert forall|other: Directory| disk.may_recover_as(other) implies other == dir by {
        assert forall|path: Seq<char>| contents_at(other, path) == contents_at(dir, path) by {
            assert(disk.may_recover(path, contents_at(other, path)));
        }
        assert forall|path: Seq<char>| other.dom().contains(path) == dir.dom().contains(path) by {
            assert(contents_at(other, path) == contents_at(dir, path));
        }
        assert forall|path: Seq<char>| other.dom().contains(path) implies other[path]
            == dir[path] by {
            assert(contents_at(other, path) == contents_at(dir, path));
        }
        assert(other =~= dir);
    }
}

} // verus!

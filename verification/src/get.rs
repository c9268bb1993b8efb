//! The steps of a `get`, and what follows each.
//!
//! The data file of the key is looked for first. If none is there, the key
//! is absent. Otherwise the file is read whole; a read that fails also
//! counts as absent, so a `get` never returns an error and never a part of
//! a value.

use crate::disk::{contents_at, exists_at, Directory};
use vstd::prelude::*;

verus! {

/// What the driver of a `get` does once it knows whether the data file
/// exists.
#[derive(Clone, Copy, Debug, PartialEq, Eq, Structural)]
pub enum GetNext {
    /// Read the data file and report the outcome.
    ReadData,
    /// Return absent to the caller.
    Absent,
}

/// What follows the look for the data file.
pub open spec fn get_probe_transition(exists: bool) -> GetNext {
    if exists {
        GetNext::ReadData
    } else {
        GetNext::Absent
    }
}

/// What a `get` returns after the read: the bytes read, or absent where the
/// read failed.
pub open spec fn get_read_transition<B>(outcome: Result<B, String>) -> Option<B> {
    match outcome {
        Ok(bytes) => Some(bytes),
        Err(_) => None,
    }
}

/// Decides what follows the look for the data file.
pub fn get_after_probe(exists: bool) -> (next: GetNext)
    ensures
        next == get_probe_transition(exists),
{
    if exists {
        GetNext::ReadData
    } else {
        GetNext::Absent
    }
}

/// Decides what a `get` returns, given how the read went.
pub fn get_after_read(outcome: Result<Vec<u8>, String>) -> (value: Option<Vec<u8>>)
    ensures
        value == get_read_transition(outcome),
{
    match outcome {
        Ok(bytes) => Some(bytes),
        Err(_) => None,
    }
}

/// A run of `get` on the data file at `data`: what it returns, where `read`
/// says whether the read goes well.
pub open spec fn get_run(dir: Directory, data: Seq<char>, read: Result<(), String>) -> Option<
    Seq<u8>,
> {
    match get_probe_transition(exists_at(dir, data)) {
        GetNext::Absent => None,
        GetNext::ReadData => get_read_transition(
            match read {
                Ok(_) => Ok(dir[data]),
                Err(cause) => Err(cause),
            },
        ),
    }
}

/// A `get` returns the whole contents of the data file where one exists and
/// can be read, and absent in every other case.
pub proof fn lemma_get_run(dir: Directory, data: Seq<char>, read: Result<(), String>)
    ensures
        get_run(dir, data, read) == if read is Ok {
            contents_at(dir, data)
        } else {
            None
        },
{
}

} // verus!

//! What can go wrong in the store.

use crate::put::PutStep;
use vstd::prelude::*;
use vstd::string::StringExecFns;

verus! {

/// Why a `put` did not store its value.
#[derive(Debug, PartialEq, Eq)]
pub enum StorageError {
    /// The key or the value is longer than the store accepts. No file was
    /// touched.
    InvalidArgument,
    /// The filesystem refused the operation of `step`; `cause` is its own
    /// account of why.
    Io { step: PutStep, cause: String },
}

/// How the message of a failed step begins.
pub open spec fn failure_prefix(step: PutStep) -> Seq<char> {
    match step {
        PutStep::CreateTemp => "Error creating temp file in directory: "@,
        PutStep::WriteTemp => "Error writing to temp file: "@,
        PutStep::SyncTemp => "Error syncing temp file: "@,
        PutStep::RenameTemp => "Error renaming temp file: "@,
        PutStep::OpenRoot => "Error opening root storage directory: "@,
        PutStep::SyncRoot => "Error syncing directory: "@,
    }
}

impl StorageError {
    /// The error in words.
    pub open spec fn message_text(self) -> Seq<char> {
        match self {
            StorageError::InvalidArgument => "Invalid key or value length"@,
            StorageError::Io { step, cause } => failure_prefix(step) + cause@,
        }
    }

    /// The error in words: for a failed step, what was attempted, then the
    /// filesystem's cause.
    pub fn message(&self) -> (text: String)
        ensures
            text@ == self.message_text(),
    {
        match self {
            StorageError::InvalidArgument => "Invalid key or value length".to_owned(),
            StorageError::Io { step, cause } => {
                let mut text = match step {
                    PutStep::CreateTemp => "Error creating temp file in directory: ".to_owned(),
                    PutStep::WriteTemp => "Error writing to temp file: ".to_owned(),
                    PutStep::SyncTemp => "Error syncing temp file: ".to_owned(),
                    PutStep::RenameTemp => "Error renaming temp file: ".to_owned(),
                    PutStep::OpenRoot => "Error opening root storage directory: ".to_owned(),
                    PutStep::SyncRoot => "Error syncing directory: ".to_owned(),
                };
                text.append(cause.as_str());
                text
            },
        }
    }
}

} // verus!

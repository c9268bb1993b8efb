//! The steps of a `put`, and what follows each.
//!
//! A value is committed in six filesystem operations, in this order: the
//! temporary file is created, the value is written to it, its data are
//! synced, it is renamed onto the data file, the storage root is opened, and
//! the root is synced. The rename is the commit: before it the data file is
//! untouched, after it the data file holds the whole new value. The first
//! operation that fails ends the `put` with an error.

use crate::disk::{contents_at, lemma_settled_elsewhere, Disk};
use crate::error::StorageError;
use vstd::prelude::*;

verus! {

/// One filesystem operation of a `put`.
#[derive(Clone, Copy, Debug, PartialEq, Eq, Structural)]
pub enum PutStep {
    /// Create the temporary file, empty.
    CreateTemp,
    /// Write the whole value to the temporary file.
    WriteTemp,
    /// Sync the data of the temporary file.
    SyncTemp,
    /// Rename the temporary file onto the data file.
    RenameTemp,
    /// Open the storage root.
    OpenRoot,
    /// Sync the storage root.
    SyncRoot,
}

/// What the driver of a `put` does next.
#[derive(Debug, PartialEq, Eq)]
pub enum PutNext {
    /// Perform this step and report its outcome.
    Perform(PutStep),
    /// Return this result to the caller.
    Finished(Result<(), StorageError>),
}

impl PutStep {
    /// The step that follows this one when it succeeds, if any does.
    pub open spec fn successor(self) -> Option<PutStep> {
        match self {
            PutStep::CreateTemp => Some(PutStep::WriteTemp),
            PutStep::WriteTemp => Some(PutStep::SyncTemp),
            PutStep::SyncTemp => Some(PutStep::RenameTemp),
            PutStep::RenameTemp => Some(PutStep::OpenRoot),
            PutStep::OpenRoot => Some(PutStep::SyncRoot),
            PutStep::SyncRoot => None,
        }
    }

    /// How many steps follow this one.
    pub open spec fn steps_left(self) -> nat {
        match self {
            PutStep::CreateTemp => 5,
            PutStep::WriteTemp => 4,
            PutStep::SyncTemp => 3,
            PutStep::RenameTemp => 2,
            PutStep::OpenRoot => 1,
            PutStep::SyncRoot => 0,
        }
    }

    /// Whether the new value is committed only after this step: true up to
    /// and including the rename.
    pub open spec fn before_commit(self) -> bool {
        self.steps_left() >= PutStep::RenameTemp.steps_left()
    }

    /// The disk after this step has succeeded on `disk`, for the given
    /// temporary file, data file and value.
    pub open spec fn effect(
        self,
        disk: Disk,
        temp: Seq<char>,
        data: Seq<char>,
        value: Seq<u8>,
    ) -> Disk {
        match self {
            PutStep::CreateTemp => disk.create(temp),
            PutStep::WriteTemp => disk.write(temp, value),
            PutStep::SyncTemp => disk.sync_file(temp),
            PutStep::RenameTemp => disk.rename(temp, data),
            PutStep::OpenRoot => disk,
            PutStep::SyncRoot => disk.sync_dir(),
        }
    }
}

/// The step with which every `put` begins.
pub open spec fn first_put_step() -> PutStep {
    PutStep::CreateTemp
}

/// What follows `step` with the given outcome: after a success the next
/// step, or the end of the `put`; after a failure the error that names the
/// step and carries the cause.
pub open spec fn put_transition(step: PutStep, outcome: Result<(), String>) -> PutNext {
    match outcome {
        Ok(_) => match step.successor() {
            Some(next) => PutNext::Perform(next),
            None => PutNext::Finished(Ok(())),
        },
        Err(cause) => PutNext::Finished(Err(StorageError::Io { step, cause })),
    }
}

/// The first step of a `put`.
pub fn put_first() -> (step: PutStep)
    ensures
        step == first_put_step(),
{
    PutStep::CreateTemp
}

/// Decides what follows `step`, given how it went.
pub fn put_next(step: PutStep, outcome: Result<(), String>) -> (next: PutNext)
    ensures
        next == put_transition(step, outcome),
{
    match outcome {
        Err(cause) => PutNext::Finished(Err(StorageError::Io { step, cause })),
        Ok(_) => match step {
            PutStep::CreateTemp => PutNext::Perform(PutStep::WriteTemp),
            PutStep::WriteTemp => PutNext::Perform(PutStep::SyncTemp),
            PutStep::SyncTemp => PutNext::Perform(PutStep::RenameTemp),
            PutStep::RenameTemp => PutNext::Perform(PutStep::OpenRoot),
            PutStep::OpenRoot => PutNext::Perform(PutStep::SyncRoot),
            PutStep::SyncRoot => PutNext::Finished(Ok(())),
        },
    }
}

/// A run of `put` from `step` on: the disk it leaves and the result it
/// returns, where `replies` says how each step goes. A step that fails
/// changes nothing and ends the run.
pub open spec fn put_run(
    disk: Disk,
    temp: Seq<char>,
    data: Seq<char>,
    value: Seq<u8>,
    step: PutStep,
    replies: spec_fn(PutStep) -> Result<(), String>,
) -> (Disk, Result<(), StorageError>)
    decreases step.steps_left(),
{
    let done = if replies(step) is Ok {
        step.effect(disk, temp, data, value)
    } else {
        disk
    };
    match put_transition(step, replies(step)) {
        PutNext::Perform(next) => put_run(done, temp, data, value, next, replies),
        PutNext::Finished(result) => (done, result),
    }
}

/// What a whole `put` leaves visible, however its steps go.
///
/// The run succeeds exactly when every step does, and names the step that
/// failed otherwise. The data file holds its old contents until the rename
/// has succeeded and the whole new value from then on, so it never holds a
/// part of a value. No file but the temporary file and the data file
/// changes, and after a success the temporary file is gone.
pub proof fn lemma_put_run(
    disk: Disk,
    temp: Seq<char>,
    data: Seq<char>,
    value: Seq<u8>,
    replies: spec_fn(PutStep) -> Result<(), String>,
)
    requires
        temp != data,
    ensures
        ({
            let (after, result) = put_run(disk, temp, data, value, first_put_step(), replies);
            &&& result is Ok <==> forall|step: PutStep| (#[trigger] replies(step)) is Ok
            &&& match result {
                Ok(_) => after.visible == disk.visible.remove(temp).insert(data, value),
                Err(StorageError::Io { step, cause }) => {
                    &&& replies(step) == Err::<(), String>(cause)
                    &&& contents_at(after.visible, data) == if step.before_commit() {
                        contents_at(disk.visible, data)
                    } else {
                        Some(value)
                    }
                },
                Err(StorageError::InvalidArgument) => false,
            }
            &&& forall|path: Seq<char>|
                path != temp && path != data ==> #[trigger] contents_at(after.visible, path)
                    == contents_at(disk.visible, path)
        }),
{
    reveal_with_fuel(put_run, 7);
    let (after, result) = put_run(disk, temp, data, value, first_put_step(), replies);
    if result is Ok {
        assert forall|step: PutStep| (#[trigger] replies(step)) is Ok by {
            match step {
                PutStep::CreateTemp => {},
                PutStep::WriteTemp => {},
                PutStep::SyncTemp => {},
                PutStep::RenameTemp => {},
                PutStep::OpenRoot => {},
                PutStep::SyncRoot => {},
            }
        }
        assert(after.visible =~= disk.visible.remove(temp).insert(data, value));
    }
}

/// What a crash may leave of the data file during and after a `put`,
/// however its steps go.
///
/// At every point recovery finds at the data file the whole new value, or
/// something it might have found before the `put`; up to and including the
/// rename, only the latter. After a `put` that succeeded the data file is
/// settled: recovery finds the whole new value and nothing else. The value
/// reaches the data file only after its bytes were synced, which is why no
/// crash leaves a part of it there.
pub proof fn lemma_put_run_survives(
    disk: Disk,
    temp: Seq<char>,
    data: Seq<char>,
    value: Seq<u8>,
    replies: spec_fn(PutStep) -> Result<(), String>,
)
    requires
        temp != data,
    ensures
        ({
            let (after, result) = put_run(disk, temp, data, value, first_put_step(), replies);
            &&& forall|found: Option<Seq<u8>>| #[trigger]
                after.may_recover(data, found) ==> found == Some(value) || disk.may_recover(
                    data,
                    found,
                )
            &&& match result {
                Ok(_) => after.settled_at(data),
                Err(StorageError::Io { step, cause }) => step.before_commit() ==> forall|
                    found: Option<Seq<u8>>,
                | #[trigger]
                    after.may_recover(data, found) <==> disk.may_recover(data, found),
                Err(StorageError::InvalidArgument) => false,
            }
        }),
{
    reveal_with_fuel(put_run, 7);
}

/// After a `put` that succeeded nothing is pending in the directory: a
/// crash may leave it just as it is.
pub proof fn lemma_put_run_settles(
    disk: Disk,
    temp: Seq<char>,
    data: Seq<char>,
    value: Seq<u8>,
    replies: spec_fn(PutStep) -> Result<(), String>,
)
    requires
        temp != data,
    ensures
        ({
            let (after, result) = put_run(disk, temp, data, value, first_put_step(), replies);
            result is Ok ==> after.may_recover_as(after.visible)
        }),
{
    reveal_with_fuel(put_run, 7);
}

/// A step of a `put` touches no file but the temporary file and the data
/// file of its own key: every other path holds after the step what it held
/// before, and is settled if it was. So the steps of operations on other
/// keys may fall between the steps of this one.
pub proof fn lemma_put_step_elsewhere(
    step: PutStep,
    disk: Disk,
    temp: Seq<char>,
    data: Seq<char>,
    value: Seq<u8>,
    path: Seq<char>,
)
    requires
        path != temp,
        path != data,
    ensures
        contents_at(step.effect(disk, temp, data, value).visible, path) == contents_at(
            disk.visible,
            path,
        ),
        disk.settled_at(path) ==> step.effect(disk, temp, data, value).settled_at(path),
{
    if disk.settled_at(path) {
        lemma_settled_elsewhere(disk, path, temp, data, value);
    }
}

/// A run of `put` from any step on leaves every other file as settled as
/// it was.
proof fn lemma_put_steps_keep_settled(
    disk: Disk,
    temp: Seq<char>,
    data: Seq<char>,
    value: Seq<u8>,
    step: PutStep,
    replies: spec_fn(PutStep) -> Result<(), String>,
    path: Seq<char>,
)
    requires
        path != temp,
        path != data,
        disk.settled_at(path),
    ensures
        put_run(disk, temp, data, value, step, replies).0.settled_at(path),
    decreases step.steps_left(),
{
    lemma_put_step_elsewhere(step, disk, temp, data, value, path);
    let done = if replies(step) is Ok {
        step.effect(disk, temp, data, value)
    } else {
        disk
    };
    match put_transition(step, replies(step)) {
        PutNext::Perform(next) => {
            lemma_put_steps_keep_settled(done, temp, data, value, next, replies, path);
        },
        PutNext::Finished(_) => {},
    }
}

/// A `put` leaves every other file as settled as it was: where a path
/// other than the temporary file and the data file was settled before the
/// run, it is settled after it.
pub proof fn lemma_put_run_keeps_settled(
    disk: Disk,
    temp: Seq<char>,
    data: Seq<char>,
    value: Seq<u8>,
    replies: spec_fn(PutStep) -> Result<(), String>,
    path: Seq<char>,
)
    requires
        path != temp,
        path != data,
        disk.settled_at(path),
    ensures
        put_run(disk, temp, data, value, first_put_step(), replies).0.settled_at(path),
{
    lemma_put_steps_keep_settled(disk, temp, data, value, first_put_step(), replies, path);
}

} // verus!

//! The steps of a `remove`, and what follows each.
//!
//! The data file of the key is looked for first. If none is there, nothing
//! is done and the answer is `false`. Otherwise the file is deleted; if that
//! fails the answer is `false`. After a deletion the storage root is opened
//! and synced, so that the deletion lasts; the answer is `true` whether or
//! not that succeeds.

use crate::disk::{contents_at, exists_at, lemma_settled_elsewhere, Disk};
use vstd::prelude::*;

verus! {

/// One filesystem operation of a `remove`.
#[derive(Clone, Copy, Debug, PartialEq, Eq, Structural)]
pub enum RemoveStep {
    /// Delete the data file.
    Delete,
    /// Open the storage root.
    OpenRoot,
    /// Sync the storage root.
    SyncRoot,
}

/// What the driver of a `remove` does next.
#[derive(Clone, Copy, Debug, PartialEq, Eq, Structural)]
pub enum RemoveNext {
    /// Perform this step and report its outcome.
    Perform(RemoveStep),
    /// Return this answer to the caller.
    Finished(bool),
}

impl RemoveStep {
    /// How many steps can follow this one.
    pub open spec fn steps_left(self) -> nat {
        match self {
            RemoveStep::Delete => 2,
            RemoveStep::OpenRoot => 1,
            RemoveStep::SyncRoot => 0,
        }
    }

    /// The disk after this step has succeeded on `disk`, for the given data
    /// file.
    pub open spec fn effect(self, disk: Disk, data: Seq<char>) -> Disk {
        match self {
            RemoveStep::Delete => disk.delete(data),
            RemoveStep::OpenRoot => disk,
            RemoveStep::SyncRoot => disk.sync_dir(),
        }
    }
}

/// What follows the look for the data file: the deletion where the file
/// exists, the answer `false` where it does not.
pub open spec fn remove_probe_transition(exists: bool) -> RemoveNext {
    if exists {
        RemoveNext::Perform(RemoveStep::Delete)
    } else {
        RemoveNext::Finished(false)
    }
}

/// What follows `step`, given whether it succeeded.
pub open spec fn remove_transition(step: RemoveStep, succeeded: bool) -> RemoveNext {
    match step {
        RemoveStep::Delete => if succeeded {
            RemoveNext::Perform(RemoveStep::OpenRoot)
        } else {
            RemoveNext::Finished(false)
        },
        RemoveStep::OpenRoot => if succeeded {
            RemoveNext::Perform(RemoveStep::SyncRoot)
        } else {
            RemoveNext::Finished(true)
        },
        RemoveStep::SyncRoot => RemoveNext::Finished(true),
    }
}

/// Decides what follows the look for the data file.
pub fn remove_after_probe(exists: bool) -> (next: RemoveNext)
    ensures
        next == remove_probe_transition(exists),
{
    if exists {
        RemoveNext::Perform(RemoveStep::Delete)
    } else {
        RemoveNext::Finished(false)
    }
}

/// Decides what follows `step`, given how it went.
pub fn remove_next(step: RemoveStep, outcome: Result<(), String>) -> (next: RemoveNext)
    ensures
        next == remove_transition(step, outcome is Ok),
{
    match step {
        RemoveStep::Delete => match outcome {
            Ok(_) => RemoveNext::Perform(RemoveStep::OpenRoot),
            Err(_) => RemoveNext::Finished(false),
        },
        RemoveStep::OpenRoot => match outcome {
            Ok(_) => RemoveNext::Perform(RemoveStep::SyncRoot),
            Err(_) => RemoveNext::Finished(true),
        },
        RemoveStep::SyncRoot => RemoveNext::Finished(true),
    }
}

/// The steps of a `remove` from `step` on: the disk they leave and the
/// answer returned, where `replies` says how each step goes. A step that
/// fails changes nothing.
pub open spec fn remove_steps(
    disk: Disk,
    data: Seq<char>,
    step: RemoveStep,
    replies: spec_fn(RemoveStep) -> Result<(), String>,
) -> (Disk, bool)
    decreases step.steps_left(),
{
    let done = if replies(step) is Ok {
        step.effect(disk, data)
    } else {
        disk
    };
    match remove_transition(step, replies(step) is Ok) {
        RemoveNext::Perform(next) => remove_steps(done, data, next, replies),
        RemoveNext::Finished(answer) => (done, answer),
    }
}

/// A run of `remove` on the data file at `data`: the disk it leaves and the
/// answer it returns.
pub open spec fn remove_run(
    disk: Disk,
    data: Seq<char>,
    replies: spec_fn(RemoveStep) -> Result<(), String>,
) -> (Disk, bool) {
    match remove_probe_transition(exists_at(disk.visible, data)) {
        RemoveNext::Perform(step) => remove_steps(disk, data, step, replies),
        RemoveNext::Finished(answer) => (disk, answer),
    }
}

/// What a whole `remove` leaves visible, however its steps go.
///
/// The answer is `true` exactly when the data file existed and its deletion
/// succeeded; the file is then gone, and no other file has changed. With
/// the answer `false` the disk is as it was.
pub proof fn lemma_remove_run(
    disk: Disk,
    data: Seq<char>,
    replies: spec_fn(RemoveStep) -> Result<(), String>,
)
    ensures
        ({
            let (after, answer) = remove_run(disk, data, replies);
            &&& answer <==> exists_at(disk.visible, data) && replies(RemoveStep::Delete) is Ok
            &&& answer ==> after.visible == disk.visible.remove(data)
            &&& !answer ==> after == disk
        }),
{
    reveal_with_fuel(remove_steps, 4);
}

/// What a crash may leave of the data file during and after a `remove`,
/// however its steps go.
///
/// At every point recovery finds no data file, or something it might have
/// found before the `remove`. After a `remove` whose steps all succeeded
/// the path is settled: recovery finds no file there.
pub proof fn lemma_remove_run_survives(
    disk: Disk,
    data: Seq<char>,
    replies: spec_fn(RemoveStep) -> Result<(), String>,
)
    ensures
        ({
            let (after, answer) = remove_run(disk, data, replies);
            &&& forall|found: Option<Seq<u8>>| #[trigger]
                after.may_recover(data, found) ==> found is None || disk.may_recover(data, found)
            &&& answer && (forall|step: RemoveStep| (#[trigger] replies(step)) is Ok)
                ==> after.settled_at(data)
        }),
{
    reveal_with_fuel(remove_steps, 4);
    let (after, answer) = remove_run(disk, data, replies);
    if answer && (forall|step: RemoveStep| (#[trigger] replies(step)) is Ok) {
        assert(replies(RemoveStep::Delete) is Ok);
        assert(replies(RemoveStep::OpenRoot) is Ok);
        assert(replies(RemoveStep::SyncRoot) is Ok);
    }
}

/// A step of a `remove` touches no file but the data file of its own key:
/// every other path holds after the step what it held before, and is
/// settled if it was.
pub proof fn lemma_remove_step_elsewhere(
    step: RemoveStep,
    disk: Disk,
    data: Seq<char>,
    path: Seq<char>,
)
    requires
        path != data,
    ensures
        contents_at(step.effect(disk, data).visible, path) == contents_at(disk.visible, path),
        disk.settled_at(path) ==> step.effect(disk, data).settled_at(path),
{
    if disk.settled_at(path) {
        lemma_settled_elsewhere(disk, path, data, data, Seq::empty());
    }
}

/// The steps of a `remove` from any step on leave every other file as
/// settled as it was.
proof fn lemma_remove_steps_keep_settled(
    disk: Disk,
    data: Seq<char>,
    step: RemoveStep,
    replies: spec_fn(RemoveStep) -> Result<(), String>,
    path: Seq<char>,
)
    requires
        path != data,
        disk.settled_at(path),
    ensures
        remove_steps(disk, data, step, replies).0.settled_at(path),
    decreases step.steps_left(),
{
    lemma_remove_step_elsewhere(step, disk, data, path);
    let done = if replies(step) is Ok {
        step.effect(disk, data)
    } else {
        disk
    };
    match remove_transition(step, replies(step) is Ok) {
        RemoveNext::Perform(next) => {
            lemma_remove_steps_keep_settled(done, data, next, replies, path);
        },
        RemoveNext::Finished(_) => {},
    }
}

/// A `remove` leaves every other file as settled as it was: where a path
/// other than the data file was settled before the run, it is settled
/// after it.
pub proof fn lemma_remove_run_keeps_settled(
    disk: Disk,
    data: Seq<char>,
    replies: spec_fn(RemoveStep) -> Result<(), String>,
    path: Seq<char>,
)
    requires
        path != data,
        disk.settled_at(path),
    ensures
        remove_run(disk, data, replies).0.settled_at(path),
{
    if exists_at(disk.visible, data) {
        lemma_remove_steps_keep_settled(disk, data, RemoveStep::Delete, replies, path);
    }
}

} // verus!

//! A durable key-value blob store kept in a plain directory.
//!
//! The library holds the store's decisions: how a key becomes a file name,
//! where the temporary and the data file of a key lie, which filesystem
//! operation follows which, and what each outcome means for the caller. The
//! operations themselves are performed by a driver outside this crate, which
//! reports every outcome back.
//!
//! - `encoder`: from a key to its file name stem.
//! - `paths`: from a stem to the paths of its two files.
//! - `put`, `get`, `remove`: the steps of each operation, and what follows
//!   each step.
//! - `store`: the store itself, with its bounds on keys and values.
//! - `error`: why a `put` can fail.
//! - `disk`: the directory and the disk under it, on which the operations
//!   are defined.
//! - `guarantees`: what the store promises, proved.

pub mod disk;
pub mod encoder;
pub mod error;
pub mod get;
pub mod guarantees;
pub mod paths;
pub mod put;
pub mod remove;
pub mod store;

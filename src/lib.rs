//! One-way, incremental mirroring of a source directory tree into a
//! destination tree: the decisions of the walk, proved.
//!
//! A path is a sequence of components (`Vec<String>`). The walk itself, the
//! reading of metadata and the copying of bytes are done by the caller, who
//! feeds the results into [`SyncSession`] and [`plan_file`] and performs the
//! actions they return.

mod paths;
mod reconcile;
mod session;

pub use paths::{is_excluded, mirrored_dir};
pub use reconcile::{finish_copy, plan_file, FailureReason, Outcome, Timestamp, NANOS_PER_SEC};
pub use session::{EntryStep, Step, SyncSession};

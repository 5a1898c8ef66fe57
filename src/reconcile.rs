use vstd::prelude::*;

verus! {

/// Nanoseconds in one second.
pub const NANOS_PER_SEC: u32 = 1_000_000_000;

/// A last-modified time, as signed nanoseconds from the Unix epoch.
#[derive(Clone, Copy, Debug, PartialEq, Eq, Structural)]
pub struct Timestamp {
    pub nanos: i128,
}

impl Timestamp {
    /// The time `secs` seconds and `nanos` nanoseconds after the epoch.
    pub fn after_epoch(secs: u64, nanos: u32) -> (r: Timestamp)
        requires
            nanos < NANOS_PER_SEC,
        ensures
            r.nanos == secs * 1_000_000_000 + nanos,
    {
        assert(secs * 1_000_000_000 <= u64::MAX * 1_000_000_000) by (nonlinear_arith);
        Timestamp { nanos: secs as i128 * 1_000_000_000 + nanos as i128 }
    }

    /// The time `secs` seconds and `nanos` nanoseconds before the epoch.
    pub fn before_epoch(secs: u64, nanos: u32) -> (r: Timestamp)
        requires
            nanos < NANOS_PER_SEC,
        ensures
            r.nanos == -(secs * 1_000_000_000 + nanos),
    {
        assert(secs * 1_000_000_000 <= u64::MAX * 1_000_000_000) by (nonlinear_arith);
        Timestamp { nanos: -(secs as i128 * 1_000_000_000) - nanos as i128 }
    }

    /// Whether `self` is strictly later than `other`.
    pub fn is_newer_than(&self, other: &Timestamp) -> (r: bool)
        ensures
            r == (self.nanos > other.nanos),
    {
        self.nanos > other.nanos
    }
}

/// Why one file or directory could not be handled. None of these stops the run.
#[derive(Clone, Copy, Debug, PartialEq, Eq, Structural)]
pub enum FailureReason {
    /// The entries of a source directory could not be listed.
    UnreadableDirectory,
    /// One record of a directory listing could not be read.
    UnreadableEntry,
    /// The last-modified time of the source or destination file could not be read.
    UnreadableMetadata,
    /// Copying the file failed.
    CopyFailed,
    /// The entry has no final name.
    NoFileName,
}

/// What became, or is to become, of one source file.
#[derive(Clone, Copy, Debug, PartialEq, Eq, Structural)]
pub enum Outcome {
    /// Copied to a destination where no file stood.
    Created,
    /// Copied over an older destination file.
    Overwritten,
    /// Left alone: the destination file is as new or newer.
    Skipped,
    /// Not synchronised, for the given reason.
    Failed(FailureReason),
}

/// The copy or skip decision for one file. Where the destination file is
/// absent the file is created; otherwise both times must be known, and the
/// file is overwritten only if the source is strictly newer: a tie keeps the
/// destination.
pub open spec fn planned(dest_exists: bool, source_time: Option<Timestamp>, dest_time: Option<Timestamp>) -> Outcome {
    if !dest_exists {
        Outcome::Created
    } else {
        match (source_time, dest_time) {
            (Some(s), Some(d)) => if s.nanos > d.nanos {
                Outcome::Overwritten
            } else {
                Outcome::Skipped
            },
            _ => Outcome::Failed(FailureReason::UnreadableMetadata),
        }
    }
}

/// The outcome requires the bytes of the source file to be copied.
pub open spec fn copies(o: Outcome) -> bool {
    o == Outcome::Created || o == Outcome::Overwritten
}

impl Outcome {
    /// Whether the source file is to be copied to the destination.
    pub fn needs_copy(&self) -> (r: bool)
        ensures
            r == copies(*self),
    {
        match self {
            Outcome::Created | Outcome::Overwritten => true,
            _ => false,
        }
    }
}

/// Decides what to do with one source file, given whether the destination
/// file exists and the last-modified times that could be read (`None` where
/// reading failed). The times are consulted only where the destination exists.
pub fn plan_file(dest_exists: bool, source_time: Option<Timestamp>, dest_time: Option<Timestamp>) -> (r: Outcome)
    ensures
        r == planned(dest_exists, source_time, dest_time),
        !dest_exists ==> r == Outcome::Created,
        dest_exists && source_time is Some && dest_time is Some ==> (r == Outcome::Overwritten
            <==> source_time->0.nanos > dest_time->0.nanos),
        dest_exists && source_time is Some && dest_time is Some ==> (r == Outcome::Skipped
            <==> source_time->0.nanos <= dest_time->0.nanos),
{
    if !dest_exists {
        return Outcome::Created;
    }
    match (source_time, dest_time) {
        (Some(s), Some(d)) => {
            if s.is_newer_than(&d) {
                Outcome::Overwritten
            } else {
                Outcome::Skipped
            }
        },
        _ => Outcome::Failed(FailureReason::UnreadableMetadata),
    }
}

/// The final outcome for a file once the copy that `plan` asked for was
/// attempted: a failed copy turns the plan into a failure; an outcome that
/// asked for no copy stands as it is.
pub fn finish_copy(plan: Outcome, copied: bool) -> (r: Outcome)
    ensures
        r == if copies(plan) && !copied {
            Outcome::Failed(FailureReason::CopyFailed)
        } else {
            plan
        },
{
    if plan.needs_copy() && !copied {
        Outcome::Failed(FailureReason::CopyFailed)
    } else {
        plan
    }
}

/// The last-modified time of the destination file after one run: the time
/// of the copy where one was made, the earlier time otherwise.
pub open spec fn dest_time_after(plan: Outcome, dest_time: Option<Timestamp>, copy_time: Timestamp) -> Option<Timestamp> {
    if copies(plan) {
        Some(copy_time)
    } else {
        dest_time
    }
}

/// A second run with no change to the source skips the file. After a first
/// run that created, overwrote or skipped it, the destination file exists and
/// is at least as new as the source, provided that the copy, where one was
/// made, is stamped no earlier than the source's last modification.
pub proof fn lemma_second_run_skips(
    dest_exists: bool,
    source_time: Timestamp,
    dest_time: Option<Timestamp>,
    copy_time: Timestamp,
)
    requires
        !(planned(dest_exists, Some(source_time), dest_time) is Failed),
        copy_time.nanos >= source_time.nanos,
    ensures
        planned(
            true,
            Some(source_time),
            dest_time_after(planned(dest_exists, Some(source_time), dest_time), dest_time, copy_time),
        ) == Outcome::Skipped,
{
}

} // verus!

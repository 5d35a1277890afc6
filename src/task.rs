//! The decisions of one purge run.
//!
//! A run is a short exchange with the store: the task says which request to
//! make next, the caller makes it and hands the reply back, until the task
//! finishes with the number of records purged or fails.

use vstd::prelude::*;
use crate::cutoff::{cutoff_spec, cutoff_text, now_millis, representable, utc_timestamp_text};

verus! {

/// Where a run stands.
#[derive(Debug, Clone, Copy, PartialEq, Eq)]
pub enum PurgePhase {
    /// Waiting for the number of records soft-deleted before the cutoff.
    Counting,
    /// Waiting for the delete of those records to complete.
    Deleting,
    /// The run is over.
    Done,
}

/// Why a run failed.
#[derive(Debug, Clone, Copy, PartialEq, Eq)]
pub enum PurgeError {
    /// The retention period reaches back before the earliest dated instant.
    CutoffOutOfRange,
    /// A request to the store failed; its own error is the one to report.
    StoreFailed,
    /// A reply came that the run was not waiting for.
    UnexpectedReply,
}

/// What the caller does next.
#[derive(Debug, PartialEq, Eq)]
pub enum PurgeAction {
    /// Count the records whose `deleted_at` is set and sorts before this cutoff.
    Count(String),
    /// Delete the records whose `deleted_at` is set and sorts before this cutoff.
    Delete(String),
    /// Stop: this many records were purged.
    Finish(u32),
    /// Stop with this error.
    Fail(PurgeError),
}

/// The store's answer to the last request.
#[derive(Debug, PartialEq, Eq)]
pub enum StoreReply {
    /// The count query returned this row count, or no row at all.
    Counted(Option<u32>),
    /// The delete statement completed.
    Deleted,
    /// The request failed.
    Failed,
}

/// One purge run.
#[derive(Debug, PartialEq, Eq)]
pub struct PurgeTask {
    pub phase: PurgePhase,
    /// The cutoff text that both requests are made with.
    pub cutoff: String,
    /// The number of records the count request reported.
    pub counted: u32,
}

/// The count a count reply stands for: a missing row counts as none.
pub open spec fn reply_count(c: Option<u32>) -> u32 {
    match c {
        Some(n) => n,
        None => 0,
    }
}

/// A run in `phase` with the same cutoff and count as `t`.
pub open spec fn in_phase(t: PurgeTask, phase: PurgePhase, counted: u32) -> PurgeTask {
    PurgeTask { phase, cutoff: t.cutoff, counted }
}

/// The run and action that follow a reply: a nonzero count leads to the
/// delete, a zero count finishes with 0, a completed delete finishes with the
/// count, a failed request fails the run, and any other reply is unexpected.
pub open spec fn step_spec(t: PurgeTask, reply: StoreReply) -> (PurgeTask, PurgeAction) {
    match (t.phase, reply) {
        (PurgePhase::Counting, StoreReply::Counted(c)) => if reply_count(c) == 0 {
            (in_phase(t, PurgePhase::Done, 0), PurgeAction::Finish(0))
        } else {
            (
                in_phase(t, PurgePhase::Deleting, reply_count(c)),
                PurgeAction::Delete(t.cutoff),
            )
        },
        (PurgePhase::Deleting, StoreReply::Deleted) => (
            in_phase(t, PurgePhase::Done, t.counted),
            PurgeAction::Finish(t.counted),
        ),
        (PurgePhase::Counting, StoreReply::Failed) | (PurgePhase::Deleting, StoreReply::Failed) => (
            in_phase(t, PurgePhase::Done, t.counted),
            PurgeAction::Fail(PurgeError::StoreFailed),
        ),
        _ => (
            in_phase(t, PurgePhase::Done, t.counted),
            PurgeAction::Fail(PurgeError::UnexpectedReply),
        ),
    }
}

impl PurgeTask {
    /// A run that is over before it began, with nothing purged.
    fn finished() -> (r: PurgeTask)
        ensures
            r.phase == PurgePhase::Done,
            r.counted == 0,
    {
        PurgeTask { phase: PurgePhase::Done, cutoff: String::new(), counted: 0 }
    }

    /// A run with the given cutoff text: its first request is the count.
    pub fn with_cutoff(cutoff: String) -> (r: (PurgeTask, PurgeAction))
        ensures
            r.0 == (PurgeTask { phase: PurgePhase::Counting, cutoff, counted: 0 }),
            r.1 == PurgeAction::Count(cutoff),
    {
        let request = PurgeAction::Count(cutoff.clone());
        (PurgeTask { phase: PurgePhase::Counting, cutoff, counted: 0 }, request)
    }

    /// A run that keeps records for `purge_days` days, at the instant `now_ms`.
    /// A period of zero days or less disables purging: the run finishes at
    /// once with 0 and makes no request. Otherwise its first request counts
    /// the records soft-deleted before `now_ms` less `purge_days` days.
    pub fn new(purge_days: i64, now_ms: i64) -> (r: (PurgeTask, PurgeAction))
        ensures
            purge_days <= 0 ==> r.0.phase == PurgePhase::Done && r.1 == PurgeAction::Finish(0),
            purge_days > 0 && representable(cutoff_spec(now_ms as int, purge_days as int)) ==> {
                &&& r.0.phase == PurgePhase::Counting
                &&& r.0.counted == 0
                &&& r.0.cutoff@ == utc_timestamp_text(cutoff_spec(now_ms as int, purge_days as int))
                &&& r.1 == PurgeAction::Count(r.0.cutoff)
            },
            purge_days > 0 && !representable(cutoff_spec(now_ms as int, purge_days as int)) ==> {
                &&& r.0.phase == PurgePhase::Done
                &&& r.1 == PurgeAction::Fail(PurgeError::CutoffOutOfRange)
            },
    {
        if purge_days <= 0 {
            return (PurgeTask::finished(), PurgeAction::Finish(0));
        }
        match cutoff_text(now_ms, purge_days) {
            Some(cutoff) => PurgeTask::with_cutoff(cutoff),
            None => (PurgeTask::finished(), PurgeAction::Fail(PurgeError::CutoffOutOfRange)),
        }
    }

    /// A run that keeps records for `purge_days` days, from the current time.
    /// Disabled as `new` says; otherwise it begins with a count request whose
    /// cutoff is `purge_days` days before the time read, or fails when that
    /// cutoff has no calendar date.
    pub fn start(purge_days: i64) -> (r: (PurgeTask, PurgeAction))
        ensures
            purge_days <= 0 ==> r.0.phase == PurgePhase::Done && r.1 == PurgeAction::Finish(0),
            purge_days > 0 ==> {
                ||| {
                    &&& r.0.phase == PurgePhase::Counting
                    &&& r.0.counted == 0
                    &&& r.1 == PurgeAction::Count(r.0.cutoff)
                    &&& exists|now_ms: i64|
                        r.0.cutoff@ == utc_timestamp_text(
                            #[trigger] cutoff_spec(now_ms as int, purge_days as int),
                        )
                }
                ||| r.0.phase == PurgePhase::Done && r.1 == PurgeAction::Fail(
                    PurgeError::CutoffOutOfRange,
                )
            },
    {
        let now_ms = now_millis();
        let r = PurgeTask::new(purge_days, now_ms);
        proof {
            let c = cutoff_spec(now_ms as int, purge_days as int);
            if purge_days > 0 && representable(c) {
                assert(r.0.cutoff@ == utc_timestamp_text(c));
            }
        }
        r
    }

    /// Takes the store's reply to the last request and says what comes next.
    pub fn step(&mut self, reply: StoreReply) -> (a: PurgeAction)
        ensures
            (*final(self), a) == step_spec(*old(self), reply),
    {
        match (self.phase, reply) {
            (PurgePhase::Counting, StoreReply::Counted(c)) => {
                let n: u32 = match c {
                    Some(n) => n,
                    None => 0,
                };
                if n == 0 {
                    self.phase = PurgePhase::Done;
                    self.counted = 0;
                    PurgeAction::Finish(0)
                } else {
                    self.phase = PurgePhase::Deleting;
                    self.counted = n;
                    PurgeAction::Delete(self.cutoff.clone())
                }
            },
            (PurgePhase::Deleting, StoreReply::Deleted) => {
                self.phase = PurgePhase::Done;
                PurgeAction::Finish(self.counted)
            },
            (PurgePhase::Counting, StoreReply::Failed) | (PurgePhase::Deleting, StoreReply::Failed) => {
                self.phase = PurgePhase::Done;
                PurgeAction::Fail(PurgeError::StoreFailed)
            },
            _ => {
                self.phase = PurgePhase::Done;
                PurgeAction::Fail(PurgeError::UnexpectedReply)
            },
        }
    }
}

} // verus!

//! Work too big for one frame, done a slice at a time.
//!
//! Three rules, and they are the whole of it.
//!
//! - **A slice is a length of time, not a number of rows.** A row count is an
//!   upper bound so that a step which turns out to be cheap cannot run away
//!   with the turn; the clock is what decides.
//! - **A job that ran while the data changed has nothing to say.** The version
//!   is read before a slice touches anything, so a stale job never reads a row
//!   that has moved under it, and it does not deliver.
//! - **Only the newest job may deliver.** A cancelled job is not interrupted:
//!   it stops before its next slice, which is why cancelling is instant to
//!   look at and never leaves half a result.
//!
//! The clock and the work are the application's; what lives here is what a
//! slice decides from what they report.

use vstd::prelude::*;

verus! {

/// The most rows one slice may do, whatever the clock says.
pub const SLICE_ROWS: usize = 16_384;

/// What the work says when it hands the turn back.
pub enum Step<T> {
    /// There is more to do.
    More,
    /// This is the answer, and it is delivered whole.
    Done(T),
}

/// How a job ended.
#[derive(Clone, Copy, Debug, PartialEq, Eq)]
pub enum Ended<T> {
    Done(T),
    /// The data changed under it. Nothing was read after the change and
    /// nothing was delivered; whether to ask again is the application's.
    Stale,
    /// A newer job was started, the scope closed, or somebody cancelled.
    Cancelled,
}

/// The name a view shows for how a job ended.
pub open spec fn ended_name<T>(e: Ended<T>) -> Seq<char> {
    match e {
        Ended::Done(_) => "done"@,
        Ended::Stale => "stale"@,
        Ended::Cancelled => "cancelled"@,
    }
}

impl<T> Ended<T> {
    pub fn done(self) -> (r: Option<T>)
        ensures
            r == match self {
                Ended::Done(v) => Some(v),
                _ => None,
            },
    {
        match self {
            Ended::Done(value) => Some(value),
            _ => None,
        }
    }

    /// The name a view can show without knowing what `T` is.
    pub fn state(&self) -> (r: &'static str)
        ensures
            r@ == ended_name(*self),
    {
        match self {
            Ended::Done(_) => "done",
            Ended::Stale => "stale",
            Ended::Cancelled => "cancelled",
        }
    }
}

/// Whether a job may go on, judged from whether its ticket is still the
/// current one and the data version now against the one it started at: a
/// job whose ticket is gone is cancelled, and one whose data moved is stale.
pub open spec fn refusal<T>(current: bool, version: u64, started_at: u64) -> Option<Ended<T>> {
    if !current {
        Some(Ended::Cancelled)
    } else if version != started_at {
        Some(Ended::Stale)
    } else {
        None
    }
}

/// The progress after a slice that did `spent` rows: never past the total,
/// whatever the work reported.
pub open spec fn after_slice(p: Progress, spent: usize) -> Progress {
    Progress {
        done: (if p.done + spent <= p.total {
            p.done + spent
        } else {
            p.total as int
        }) as usize,
        slices: (p.slices + 1) as usize,
        ..p
    }
}

/// How far a job has got, and how many slices it took.
#[derive(Clone, Copy, Debug, PartialEq, Eq, Structural)]
pub struct Progress {
    /// The version of the data the job was started for.
    pub started_at: u64,
    /// Rows done.
    pub done: usize,
    /// Rows there are.
    pub total: usize,
    /// Slices taken so far.
    pub slices: usize,
}

impl Progress {
    /// What a slice ends with, once the work has answered.
    pub open spec fn finish_spec<T>(self, step: Step<T>, current: bool, version: u64) -> Option<Ended<T>> {
        match step {
            Step::More => None,
            Step::Done(v) => match refusal::<T>(current, version, self.started_at) {
                Some(e) => Some(e),
                None => Some(Ended::Done(v)),
            },
        }
    }

    /// A job over `total` rows of the data at `version`, not yet started.
    pub fn new(version: u64, total: usize) -> (r: Progress)
        ensures
            r == (Progress { started_at: version, done: 0, total, slices: 0 }),
    {
        Progress { started_at: version, done: 0, total, slices: 0 }
    }

    /// Whether the job may go on, asked before a slice touches anything and
    /// again when the work says it is done: the work between the two could
    /// have been the write.
    pub fn refused<T>(&self, current: bool, version: u64) -> (r: Option<Ended<T>>)
        ensures
            r == refusal::<T>(current, version, self.started_at),
    {
        if !current {
            return Some(Ended::Cancelled);
        }
        if version != self.started_at {
            return Some(Ended::Stale);
        }
        None
    }

    /// Records one slice that did `spent` rows. Progress never passes the
    /// total, whatever the work reported.
    pub fn record(&mut self, spent: usize)
        requires
            old(self).done + spent <= usize::MAX,
            old(self).slices < usize::MAX,
        ensures
            *final(self) == after_slice(*old(self), spent),
    {
        let sum = self.done + spent;
        self.done = if sum <= self.total {
            sum
        } else {
            self.total
        };
        self.slices = self.slices + 1;
    }

    /// What a slice ends with, once the work has answered: nothing yet while
    /// there is more to do, and a finished value only if the job is still
    /// allowed to deliver it.
    pub fn finish<T>(&self, step: Step<T>, current: bool, version: u64) -> (r: Option<Ended<T>>)
        ensures
            r == self.finish_spec(step, current, version),
    {
        match step {
            Step::More => None,
            Step::Done(value) => match self.refused(current, version) {
                Some(end) => Some(end),
                None => Some(Ended::Done(value)),
            },
        }
    }
}

/// Progress only ever goes forward and stops at the total.
pub proof fn law_progress_only_goes_forward(p: Progress, spent: usize)
    requires
        p.done <= p.total,
        p.done + spent <= usize::MAX,
        p.slices < usize::MAX,
    ensures
        p.done <= after_slice(p, spent).done <= after_slice(p, spent).total,
        after_slice(p, spent).total == p.total,
{
}

/// A job that is no longer current never delivers, and neither does one
/// whose data moved, whatever its work says.
pub proof fn law_only_the_current_job_delivers<T>(p: Progress, value: T, current: bool, version: u64)
    ensures
        p.finish_spec(Step::Done(value), current, version) is Some,
        (!current || version != p.started_at) ==> !(p.finish_spec(Step::Done(value), current, version)
            matches Some(Ended::Done(_))),
{
}

} // verus!

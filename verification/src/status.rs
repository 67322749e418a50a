//! The lifecycle status of a job.

use vstd::prelude::*;

verus! {

/// Where a job stands in its lifecycle.
///
/// A job starts `Open`, becomes `InProgress` when a proposal is accepted, and
/// ends `Completed` or `Disputed`. `Cancelled` is declared for callers that
/// want to name it, but no operation of the marketplace produces it.
#[derive(Clone, Copy, Debug, PartialEq, Eq, Structural)]
pub enum JobStatus {
    Open,
    InProgress,
    Completed,
    Cancelled,
    Disputed,
}

impl JobStatus {
    /// A terminal status is never left again.
    pub open spec fn terminal(self) -> bool {
        self == JobStatus::Completed || self == JobStatus::Cancelled || self == JobStatus::Disputed
    }

    /// Tells whether the status is one that is never left again.
    pub fn is_terminal(&self) -> (answer: bool)
        ensures
            answer == self.terminal(),
    {
        match self {
            JobStatus::Open => false,
            JobStatus::InProgress => false,
            JobStatus::Completed => true,
            JobStatus::Cancelled => true,
            JobStatus::Disputed => true,
        }
    }
}

} // verus!

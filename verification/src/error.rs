//! The kinds of refusal an operation can answer with.

use vstd::prelude::*;
use vstd::string::StringExecFns;

verus! {

/// Why an operation was refused. Every refusal leaves the store untouched,
/// so the caller may correct the input and try again.
#[derive(Clone, Copy, Debug, PartialEq, Eq, Structural)]
pub enum MarketError {
    /// A field is empty, too long, or a budget is zero.
    Validation,
    /// The job, or the proposal named on it, does not exist.
    NotFound,
    /// The job's status does not allow the operation.
    InvalidState,
    /// The job already has a freelancer assigned.
    Conflict,
    /// The freelancer already has a proposal on the job.
    Duplicate,
    /// The requester is not a party the operation is open to.
    Authorization,
    /// The job has been funded before.
    AlreadyFunded,
    /// The job has no chat yet.
    ChatNotInitialized,
}

impl MarketError {
    /// The human-readable sentence that goes with each kind.
    pub open spec fn message_text(self) -> Seq<char> {
        match self {
            MarketError::Validation => "a field is empty, too long, or not positive"@,
            MarketError::NotFound => "no such job or proposal"@,
            MarketError::InvalidState => "the job's status does not allow this"@,
            MarketError::Conflict => "the job already has a freelancer"@,
            MarketError::Duplicate => "this freelancer already has a proposal on the job"@,
            MarketError::Authorization => "the requester may not do this"@,
            MarketError::AlreadyFunded => "the job is already funded"@,
            MarketError::ChatNotInitialized => "the job has no chat yet"@,
        }
    }

    /// Renders the kind as a sentence for people.
    pub fn message(&self) -> (text: String)
        ensures
            text@ == self.message_text(),
    {
        match self {
            MarketError::Validation => String::from_str("a field is empty, too long, or not positive"),
            MarketError::NotFound => String::from_str("no such job or proposal"),
            MarketError::InvalidState => String::from_str("the job's status does not allow this"),
            MarketError::Conflict => String::from_str("the job already has a freelancer"),
            MarketError::Duplicate => String::from_str(
                "this freelancer already has a proposal on the job",
            ),
            MarketError::Authorization => String::from_str("the requester may not do this"),
            MarketError::AlreadyFunded => String::from_str("the job is already funded"),
            MarketError::ChatNotInitialized => String::from_str("the job has no chat yet"),
        }
    }
}

} // verus!

//! The bounds that the text fields and amounts of a job, a proposal and a
//! message must keep, as predicates over character sequences and as the
//! executable checks that decide them.

use vstd::prelude::*;
use vstd::string::StrSliceExecFns;

verus! {

/// The longest title a job may have, in characters.
pub const MAX_TITLE_CHARS: usize = 100;

/// The longest description a job may have, in characters.
pub const MAX_DESCRIPTION_CHARS: usize = 1000;

/// The longest cover letter a proposal may have, in characters.
pub const MAX_COVER_LETTER_CHARS: usize = 500;

/// The longest content a message may have, in characters.
pub const MAX_MESSAGE_CHARS: usize = 1000;

/// A text is within a bound when it has at least one character and at most
/// `max` of them.
pub open spec fn text_within(text: Seq<char>, max: nat) -> bool {
    1 <= text.len() <= max
}

/// The field constraints of a job: a title of 1 to 100 characters, a
/// description of 1 to 1000, a positive budget, and a deadline and a client
/// identifier that are present.
pub open spec fn valid_job_fields(
    title: Seq<char>,
    description: Seq<char>,
    budget: u64,
    deadline: Seq<char>,
    client: Seq<char>,
) -> bool {
    &&& text_within(title, MAX_TITLE_CHARS as nat)
    &&& text_within(description, MAX_DESCRIPTION_CHARS as nat)
    &&& budget > 0
    &&& deadline.len() > 0
    &&& client.len() > 0
}

/// The field constraints of a proposal: a cover letter of 1 to 500 characters
/// and a positive expected budget.
pub open spec fn valid_proposal_fields(cover_letter: Seq<char>, expected_budget: u64) -> bool {
    &&& text_within(cover_letter, MAX_COVER_LETTER_CHARS as nat)
    &&& expected_budget > 0
}

/// The field constraint of a message: a content of 1 to 1000 characters.
pub open spec fn valid_message_content(content: Seq<char>) -> bool {
    text_within(content, MAX_MESSAGE_CHARS as nat)
}

/// Decides whether `text` has between 1 and `max` characters.
pub fn check_text_within(text: &str, max: usize) -> (ok: bool)
    ensures
        ok == text_within(text@, max as nat),
{
    let count: usize = text.unicode_len();
    1 <= count && count <= max
}

/// Decides the field constraints of a job.
pub fn check_job_fields(
    title: &str,
    description: &str,
    budget: u64,
    deadline: &str,
    client: &str,
) -> (ok: bool)
    ensures
        ok == valid_job_fields(title@, description@, budget, deadline@, client@),
{
    check_text_within(title, MAX_TITLE_CHARS)
        && check_text_within(description, MAX_DESCRIPTION_CHARS)
        && budget > 0
        && !deadline.is_empty()
        && !client.is_empty()
}

/// Decides the field constraints of a proposal.
pub fn check_proposal_fields(cover_letter: &str, expected_budget: u64) -> (ok: bool)
    ensures
        ok == valid_proposal_fields(cover_letter@, expected_budget),
{
    check_text_within(cover_letter, MAX_COVER_LETTER_CHARS) && expected_budget > 0
}

/// Decides the field constraint of a message.
pub fn check_message_content(content: &str) -> (ok: bool)
    ensures
        ok == valid_message_content(content@),
{
    check_text_within(content, MAX_MESSAGE_CHARS)
}

} // verus!

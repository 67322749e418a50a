//! The mathematical model of the marketplace: what a proposal, a message, a
//! chat, a job and the whole store are, as values of sequences and numbers,
//! and what it means for them to be well formed.
//!
//! Texts are sequences of characters. The store is the sequence of its jobs
//! in the order in which they were created, together with the identifier
//! that the next job will get.

use vstd::prelude::*;
use crate::limits::{valid_job_fields, valid_message_content, valid_proposal_fields};
use crate::status::JobStatus;

verus! {

/// A freelancer's bid on a job.
#[verifier::ext_equal]
pub struct ProposalView {
    pub freelancer: Seq<char>,
    pub cover_letter: Seq<char>,
    pub expected_budget: u64,
    pub accepted: bool,
}

/// One message of a chat.
#[verifier::ext_equal]
pub struct MessageView {
    pub sender: Seq<char>,
    pub content: Seq<char>,
    pub timestamp: nat,
}

/// The conversation of a job: its two participants and what they have said,
/// oldest first.
#[verifier::ext_equal]
pub struct ChatView {
    pub client: Seq<char>,
    pub freelancer: Seq<char>,
    pub messages: Seq<MessageView>,
}

/// A job with everything it owns.
#[verifier::ext_equal]
pub struct JobView {
    pub id: nat,
    pub title: Seq<char>,
    pub description: Seq<char>,
    pub budget: u64,
    pub deadline: Seq<char>,
    pub client: Seq<char>,
    pub freelancer: Option<Seq<char>>,
    pub proposals: Seq<ProposalView>,
    pub status: JobStatus,
    pub funded: bool,
    pub chat: Option<ChatView>,
}

/// The whole store.
#[verifier::ext_equal]
pub struct MarketView {
    pub jobs: Seq<JobView>,
    pub next_id: nat,
}

impl ProposalView {
    /// A proposal is well formed when its fields keep their bounds.
    pub open spec fn wf(self) -> bool {
        valid_proposal_fields(self.cover_letter, self.expected_budget)
    }
}

impl ChatView {
    /// Tells whether `who` is one of the two participants.
    pub open spec fn is_participant(self, who: Seq<char>) -> bool {
        who == self.client || who == self.freelancer
    }

    /// A chat is well formed when every message in it comes from a
    /// participant and has a content within bounds.
    pub open spec fn wf(self) -> bool {
        forall|i: int|
            0 <= i < self.messages.len() ==> {
                &&& self.is_participant((#[trigger] self.messages[i]).sender)
                &&& valid_message_content(self.messages[i].content)
            }
    }

    /// What the system stamps on a message that comes without a timestamp:
    /// the number of messages that the chat already holds.
    pub open spec fn next_tick(self) -> nat {
        self.messages.len()
    }
}

impl JobView {
    /// The job as it is right after creation: open, with no proposal, no
    /// freelancer, no chat, and not funded.
    pub open spec fn fresh(
        id: nat,
        title: Seq<char>,
        description: Seq<char>,
        budget: u64,
        deadline: Seq<char>,
        client: Seq<char>,
    ) -> JobView {
        JobView {
            id,
            title,
            description,
            budget,
            deadline,
            client,
            freelancer: None,
            proposals: Seq::empty(),
            status: JobStatus::Open,
            funded: false,
            chat: None,
        }
    }

    /// Where in the proposal list the proposal of `freelancer` stands, if
    /// there is one.
    pub open spec fn proposal_position(self, freelancer: Seq<char>) -> Option<int> {
        if exists|i: int|
            0 <= i < self.proposals.len() && (#[trigger] self.proposals[i]).freelancer
                == freelancer {
            Some(
                choose|i: int|
                    0 <= i < self.proposals.len() && (#[trigger] self.proposals[i]).freelancer
                        == freelancer,
            )
        } else {
            None
        }
    }

    /// Tells whether `freelancer` has a proposal on this job.
    pub open spec fn has_proposal_from(self, freelancer: Seq<char>) -> bool {
        self.proposal_position(freelancer) is Some
    }

    /// Tells whether the proposal of `freelancer` on this job carries the
    /// acceptance flag.
    pub open spec fn has_accepted_from(self, freelancer: Seq<char>) -> bool {
        exists|i: int|
            0 <= i < self.proposals.len() && (#[trigger] self.proposals[i]).freelancer
                == freelancer && self.proposals[i].accepted
    }

    /// Tells whether `who` is the client or the assigned freelancer.
    pub open spec fn is_party(self, who: Seq<char>) -> bool {
        who == self.client || self.freelancer == Some(who)
    }

    /// Exactly one proposal of the job carries the acceptance flag.
    pub open spec fn has_exactly_one_accepted(self) -> bool {
        exists|i: int|
            {
                &&& 0 <= i < self.proposals.len()
                &&& (#[trigger] self.proposals[i]).accepted
                &&& forall|j: int|
                    0 <= j < self.proposals.len() && (#[trigger] self.proposals[j]).accepted ==> j
                        == i
            }
    }

    /// No proposal of the job carries the acceptance flag.
    pub open spec fn has_none_accepted(self) -> bool {
        forall|i: int| 0 <= i < self.proposals.len() ==> !(#[trigger] self.proposals[i]).accepted
    }

    /// The invariants that hold of every job in the store at all times.
    ///
    /// - Its fields keep their bounds and its identifier is at least 1.
    /// - It is never cancelled: no operation leads there.
    /// - It is open exactly as long as no freelancer is assigned, so it is in
    ///   progress exactly when a freelancer is assigned and no terminal
    ///   status has been reached.
    /// - It has a chat exactly when a freelancer is assigned, and the chat's
    ///   participants are its client and that freelancer.
    /// - No freelancer has two proposals on it.
    /// - A proposal that carries the acceptance flag is that of the assigned
    ///   freelancer, so at most one proposal carries it.
    pub open spec fn wf(self) -> bool {
        &&& self.id >= 1
        &&& valid_job_fields(self.title, self.description, self.budget, self.deadline, self.client)
        &&& self.status != JobStatus::Cancelled
        &&& (self.status == JobStatus::Open <==> self.freelancer is None)
        &&& (self.chat is Some <==> self.freelancer is Some)
        &&& (self.chat matches Some(chat) ==> {
            &&& chat.wf()
            &&& chat.client == self.client
            &&& self.freelancer == Some(chat.freelancer)
        })
        &&& forall|i: int| 0 <= i < self.proposals.len() ==> (#[trigger] self.proposals[i]).wf()
        &&& forall|i: int, j: int|
            #![trigger self.proposals[i], self.proposals[j]]
            0 <= i < j < self.proposals.len() ==> self.proposals[i].freelancer
                != self.proposals[j].freelancer
        &&& forall|i: int|
            0 <= i < self.proposals.len() && (#[trigger] self.proposals[i]).accepted
                ==> self.freelancer == Some(self.proposals[i].freelancer)
    }

    /// The job with one more proposal at the end of its list.
    pub open spec fn with_proposal(self, proposal: ProposalView) -> JobView {
        JobView { proposals: self.proposals.push(proposal), ..self }
    }

    /// The job without the proposal of `freelancer`.
    pub open spec fn without_proposal(self, freelancer: Seq<char>) -> JobView
        recommends
            self.has_proposal_from(freelancer),
    {
        JobView {
            proposals: self.proposals.remove(self.proposal_position(freelancer)->0),
            ..self
        }
    }

    /// The job after the proposal of `freelancer` has been accepted: that
    /// proposal carries the flag, the freelancer is assigned, the job is in
    /// progress, and an empty chat between client and freelancer exists.
    pub open spec fn accepting(self, freelancer: Seq<char>) -> JobView
        recommends
            self.has_proposal_from(freelancer),
    {
        let at = self.proposal_position(freelancer)->0;
        JobView {
            proposals: self.proposals.update(
                at,
                ProposalView { accepted: true, ..self.proposals[at] },
            ),
            freelancer: Some(freelancer),
            status: JobStatus::InProgress,
            chat: Some(ChatView { client: self.client, freelancer, messages: Seq::empty() }),
            ..self
        }
    }

    /// The job with another status.
    pub open spec fn with_status(self, status: JobStatus) -> JobView {
        JobView { status, ..self }
    }

    /// The job with its funded flag set.
    pub open spec fn funded_now(self) -> JobView {
        JobView { funded: true, ..self }
    }

    /// The job with one more message at the end of its chat.
    pub open spec fn with_message(self, message: MessageView) -> JobView
        recommends
            self.chat is Some,
    {
        let chat = self.chat->0;
        JobView { chat: Some(ChatView { messages: chat.messages.push(message), ..chat }), ..self }
    }
}

impl MarketView {
    /// The store before anything has happened: no job, and 1 as the next
    /// identifier.
    pub open spec fn empty() -> MarketView {
        MarketView { jobs: Seq::empty(), next_id: 1 }
    }

    /// Where in the store the job with identifier `job_id` stands, if there
    /// is one.
    pub open spec fn position(self, job_id: nat) -> Option<int> {
        if exists|i: int| 0 <= i < self.jobs.len() && (#[trigger] self.jobs[i]).id == job_id {
            Some(choose|i: int| 0 <= i < self.jobs.len() && (#[trigger] self.jobs[i]).id == job_id)
        } else {
            None
        }
    }

    /// Tells whether the store holds a job with identifier `job_id`.
    pub open spec fn has_job(self, job_id: nat) -> bool {
        self.position(job_id) is Some
    }

    /// The job with identifier `job_id`.
    pub open spec fn job(self, job_id: nat) -> JobView
        recommends
            self.has_job(job_id),
    {
        self.jobs[self.position(job_id)->0]
    }

    /// The store with the job of identifier `job_id` replaced by `job`.
    pub open spec fn with_job(self, job_id: nat, job: JobView) -> MarketView
        recommends
            self.has_job(job_id),
    {
        MarketView { jobs: self.jobs.update(self.position(job_id)->0, job), ..self }
    }

    /// The store without the job of identifier `job_id`.
    pub open spec fn without_job(self, job_id: nat) -> MarketView
        recommends
            self.has_job(job_id),
    {
        MarketView { jobs: self.jobs.remove(self.position(job_id)->0), ..self }
    }

    /// The invariants that hold of the store at all times: every job is well
    /// formed, identifiers grow strictly along the store, and all of them lie
    /// below the next identifier, which is at least 1. So identifiers are
    /// unique, and one that was handed out is never handed out again.
    pub open spec fn wf(self) -> bool {
        &&& self.next_id >= 1
        &&& forall|i: int| 0 <= i < self.jobs.len() ==> (#[trigger] self.jobs[i]).wf()
        &&& forall|i: int| 0 <= i < self.jobs.len() ==> (#[trigger] self.jobs[i]).id < self.next_id
        &&& forall|i: int, j: int|
            #![trigger self.jobs[i], self.jobs[j]]
            0 <= i < j < self.jobs.len() ==> self.jobs[i].id < self.jobs[j].id
    }
}

/// In a well-formed store the job at position `i` is the one that its
/// identifier finds.
pub proof fn lemma_position_of(market: MarketView, i: int)
    requires
        market.wf(),
        0 <= i < market.jobs.len(),
    ensures
        market.position(market.jobs[i].id) == Some(i),
        market.has_job(market.jobs[i].id),
        market.job(market.jobs[i].id) == market.jobs[i],
{
    let found = market.position(market.jobs[i].id)->0;
    assert(0 <= found < market.jobs.len() && market.jobs[found].id == market.jobs[i].id);
    if found < i {
        assert(market.jobs[found].id < market.jobs[i].id);
    } else if i < found {
        assert(market.jobs[i].id < market.jobs[found].id);
    }
}

/// A job that the store finds stands at a valid position and has the
/// identifier that was asked for.
pub proof fn lemma_position_valid(market: MarketView, job_id: nat)
    requires
        market.has_job(job_id),
    ensures
        0 <= market.position(job_id)->0 < market.jobs.len(),
        market.job(job_id).id == job_id,
{
}

/// An identifier that no job of the store has finds nothing.
pub proof fn lemma_position_none(market: MarketView, job_id: nat)
    requires
        forall|i: int| 0 <= i < market.jobs.len() ==> (#[trigger] market.jobs[i]).id != job_id,
    ensures
        !market.has_job(job_id),
{
}

/// In a well-formed job the proposal at position `i` is the one that its
/// freelancer finds.
pub proof fn lemma_proposal_position_of(job: JobView, i: int)
    requires
        job.wf(),
        0 <= i < job.proposals.len(),
    ensures
        job.proposal_position(job.proposals[i].freelancer) == Some(i),
        job.has_proposal_from(job.proposals[i].freelancer),
{
    let found = job.proposal_position(job.proposals[i].freelancer)->0;
    assert(0 <= found < job.proposals.len() && job.proposals[found].freelancer
        == job.proposals[i].freelancer);
    if found < i {
        assert(job.proposals[found].freelancer != job.proposals[i].freelancer);
    } else if i < found {
        assert(job.proposals[i].freelancer != job.proposals[found].freelancer);
    }
}

/// In a well-formed job an accepted proposal is the only accepted one, and
/// it is that of the assigned freelancer.
pub proof fn lemma_accepted_is_the_only_one(job: JobView, freelancer: Seq<char>)
    requires
        job.wf(),
        job.has_accepted_from(freelancer),
    ensures
        job.has_exactly_one_accepted(),
        job.freelancer == Some(freelancer),
{
    let at = choose|i: int|
        0 <= i < job.proposals.len() && (#[trigger] job.proposals[i]).freelancer == freelancer
            && job.proposals[i].accepted;
    assert forall|j: int| 0 <= j < job.proposals.len() && (#[trigger] job.proposals[j]).accepted
        implies j == at by {
        if j < at {
            assert(job.proposals[j].freelancer != job.proposals[at].freelancer);
        } else if at < j {
            assert(job.proposals[at].freelancer != job.proposals[j].freelancer);
        }
    }
    assert(job.proposals[at].accepted);
}

/// A proposal that the job finds stands at a valid position and is from the
/// freelancer that was asked for.
pub proof fn lemma_proposal_position_valid(job: JobView, freelancer: Seq<char>)
    requires
        job.has_proposal_from(freelancer),
    ensures
        0 <= job.proposal_position(freelancer)->0 < job.proposals.len(),
        job.proposals[job.proposal_position(freelancer)->0].freelancer == freelancer,
{
}

/// A freelancer that no proposal of the job names finds nothing.
pub proof fn lemma_proposal_position_none(job: JobView, freelancer: Seq<char>)
    requires
        forall|i: int|
            0 <= i < job.proposals.len() ==> (#[trigger] job.proposals[i]).freelancer != freelancer,
    ensures
        !job.has_proposal_from(freelancer),
{
}

} // verus!

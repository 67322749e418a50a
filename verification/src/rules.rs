//! The rules of the marketplace, as functions of the model: for each
//! operation the verdict (success, or the one refusal that applies) and the
//! store that the operation leaves behind.
//!
//! An operation that is refused leaves the store as it was. Where several
//! refusals could apply, the verdict names the first in the order in which
//! each operation lists them.

use vstd::prelude::*;
use crate::error::MarketError;
use crate::limits::{valid_job_fields, valid_message_content, valid_proposal_fields};
use crate::model::{
    lemma_position_of, lemma_position_valid, lemma_proposal_position_of,
    lemma_proposal_position_valid, ChatView, JobView, MarketView, MessageView, ProposalView,
};
use crate::status::JobStatus;

verus! {

impl MarketView {
    /// Creating a job succeeds with the next identifier when the fields keep
    /// their bounds, and is a validation error otherwise.
    pub open spec fn create_job_verdict(
        self,
        title: Seq<char>,
        description: Seq<char>,
        budget: u64,
        deadline: Seq<char>,
        client: Seq<char>,
    ) -> Result<nat, MarketError> {
        if valid_job_fields(title, description, budget, deadline, client) {
            Ok(self.next_id)
        } else {
            Err(MarketError::Validation)
        }
    }

    /// A created job is appended as a fresh job under the next identifier,
    /// and the next identifier moves on by one.
    pub open spec fn after_create_job(
        self,
        title: Seq<char>,
        description: Seq<char>,
        budget: u64,
        deadline: Seq<char>,
        client: Seq<char>,
    ) -> MarketView {
        if self.create_job_verdict(title, description, budget, deadline, client) is Ok {
            MarketView {
                jobs: self.jobs.push(
                    JobView::fresh(self.next_id, title, description, budget, deadline, client),
                ),
                next_id: self.next_id + 1,
            }
        } else {
            self
        }
    }

    /// Submitting a proposal is refused as not found when the job is absent,
    /// as an invalid state when the job is not open, as a duplicate when the
    /// freelancer already has a proposal on it, and as a validation error
    /// when the cover letter or the expected budget is out of bounds.
    pub open spec fn submit_proposal_verdict(
        self,
        job_id: nat,
        freelancer: Seq<char>,
        cover_letter: Seq<char>,
        expected_budget: u64,
    ) -> Result<(), MarketError> {
        if !self.has_job(job_id) {
            Err(MarketError::NotFound)
        } else if self.job(job_id).status != JobStatus::Open {
            Err(MarketError::InvalidState)
        } else if self.job(job_id).has_proposal_from(freelancer) {
            Err(MarketError::Duplicate)
        } else if !valid_proposal_fields(cover_letter, expected_budget) {
            Err(MarketError::Validation)
        } else {
            Ok(())
        }
    }

    /// A submitted proposal is appended, not accepted, to the job's list;
    /// nothing else changes.
    pub open spec fn after_submit_proposal(
        self,
        job_id: nat,
        freelancer: Seq<char>,
        cover_letter: Seq<char>,
        expected_budget: u64,
    ) -> MarketView {
        if self.submit_proposal_verdict(job_id, freelancer, cover_letter, expected_budget) is Ok {
            self.with_job(
                job_id,
                self.job(job_id).with_proposal(
                    ProposalView { freelancer, cover_letter, expected_budget, accepted: false },
                ),
            )
        } else {
            self
        }
    }

    /// Accepting a proposal is refused as not found when the job is absent,
    /// as a conflict when the job already has a freelancer, whichever
    /// proposal is named, and as not found when the freelancer has no
    /// proposal on the job.
    pub open spec fn accept_proposal_verdict(self, job_id: nat, freelancer: Seq<char>) -> Result<
        (),
        MarketError,
    > {
        if !self.has_job(job_id) {
            Err(MarketError::NotFound)
        } else if self.job(job_id).freelancer is Some {
            Err(MarketError::Conflict)
        } else if !self.job(job_id).has_proposal_from(freelancer) {
            Err(MarketError::NotFound)
        } else {
            Ok(())
        }
    }

    /// An accepted proposal assigns its freelancer, puts the job in progress
    /// and opens the chat, all at once.
    pub open spec fn after_accept_proposal(self, job_id: nat, freelancer: Seq<char>) -> MarketView {
        if self.accept_proposal_verdict(job_id, freelancer) is Ok {
            self.with_job(job_id, self.job(job_id).accepting(freelancer))
        } else {
            self
        }
    }

    /// Rejecting a proposal is refused as not found when the job is absent
    /// or the freelancer has no proposal on it.
    pub open spec fn reject_proposal_verdict(self, job_id: nat, freelancer: Seq<char>) -> Result<
        (),
        MarketError,
    > {
        if !self.has_job(job_id) {
            Err(MarketError::NotFound)
        } else if !self.job(job_id).has_proposal_from(freelancer) {
            Err(MarketError::NotFound)
        } else {
            Ok(())
        }
    }

    /// A rejected proposal leaves the job's list; the job's status and the
    /// other proposals stay.
    pub open spec fn after_reject_proposal(self, job_id: nat, freelancer: Seq<char>) -> MarketView {
        if self.reject_proposal_verdict(job_id, freelancer) is Ok {
            self.with_job(job_id, self.job(job_id).without_proposal(freelancer))
        } else {
            self
        }
    }

    /// Completing or disputing a job is refused as not found when the job is
    /// absent, as an invalid state unless the job is in progress, and as an
    /// authorization error when the requester is neither the client nor the
    /// assigned freelancer.
    pub open spec fn close_job_verdict(self, job_id: nat, requester: Seq<char>) -> Result<
        (),
        MarketError,
    > {
        if !self.has_job(job_id) {
            Err(MarketError::NotFound)
        } else if self.job(job_id).status != JobStatus::InProgress {
            Err(MarketError::InvalidState)
        } else if !self.job(job_id).is_party(requester) {
            Err(MarketError::Authorization)
        } else {
            Ok(())
        }
    }

    /// A completed job has the status `Completed`; nothing else changes.
    pub open spec fn after_complete_job(self, job_id: nat, requester: Seq<char>) -> MarketView {
        if self.close_job_verdict(job_id, requester) is Ok {
            self.with_job(job_id, self.job(job_id).with_status(JobStatus::Completed))
        } else {
            self
        }
    }

    /// A disputed job has the status `Disputed`; nothing else changes.
    pub open spec fn after_dispute_job(self, job_id: nat, requester: Seq<char>) -> MarketView {
        if self.close_job_verdict(job_id, requester) is Ok {
            self.with_job(job_id, self.job(job_id).with_status(JobStatus::Disputed))
        } else {
            self
        }
    }

    /// Deleting a job is refused as not found when the job is absent, as an
    /// authorization error when the requester is not its client, and as a
    /// conflict when a freelancer is assigned.
    pub open spec fn delete_job_verdict(self, job_id: nat, requester: Seq<char>) -> Result<
        (),
        MarketError,
    > {
        if !self.has_job(job_id) {
            Err(MarketError::NotFound)
        } else if requester != self.job(job_id).client {
            Err(MarketError::Authorization)
        } else if self.job(job_id).freelancer is Some {
            Err(MarketError::Conflict)
        } else {
            Ok(())
        }
    }

    /// A deleted job leaves the store with all it owns; the next identifier
    /// stays where it is.
    pub open spec fn after_delete_job(self, job_id: nat, requester: Seq<char>) -> MarketView {
        if self.delete_job_verdict(job_id, requester) is Ok {
            self.without_job(job_id)
        } else {
            self
        }
    }

    /// Funding a job is refused as not found when the job is absent, as
    /// already funded when it has been funded before, and as an
    /// authorization error when the requester is not its client.
    pub open spec fn fund_job_verdict(self, job_id: nat, requester: Seq<char>) -> Result<
        (),
        MarketError,
    > {
        if !self.has_job(job_id) {
            Err(MarketError::NotFound)
        } else if self.job(job_id).funded {
            Err(MarketError::AlreadyFunded)
        } else if requester != self.job(job_id).client {
            Err(MarketError::Authorization)
        } else {
            Ok(())
        }
    }

    /// A funded job has its funded flag set; its status and everything else
    /// stay.
    pub open spec fn after_fund_job(self, job_id: nat, requester: Seq<char>) -> MarketView {
        if self.fund_job_verdict(job_id, requester) is Ok {
            self.with_job(job_id, self.job(job_id).funded_now())
        } else {
            self
        }
    }

    /// Sending a message is refused as not found when the job is absent, as
    /// chat not initialized when the job has no chat yet, as an
    /// authorization error when the sender is not a participant of the chat,
    /// and as a validation error when the content is out of bounds.
    pub open spec fn send_message_verdict(
        self,
        job_id: nat,
        sender: Seq<char>,
        content: Seq<char>,
    ) -> Result<(), MarketError> {
        if !self.has_job(job_id) {
            Err(MarketError::NotFound)
        } else if self.job(job_id).chat is None {
            Err(MarketError::ChatNotInitialized)
        } else if !self.job(job_id).chat->0.is_participant(sender) {
            Err(MarketError::Authorization)
        } else if !valid_message_content(content) {
            Err(MarketError::Validation)
        } else {
            Ok(())
        }
    }

    /// A sent message is appended to the job's chat. It carries the
    /// timestamp that came with it, or, when none came, the chat's own tick.
    pub open spec fn after_send_message(
        self,
        job_id: nat,
        sender: Seq<char>,
        content: Seq<char>,
        timestamp: Option<u64>,
    ) -> MarketView {
        if self.send_message_verdict(job_id, sender, content) is Ok {
            let job = self.job(job_id);
            let stamp = match timestamp {
                Some(given) => given as nat,
                None => job.chat->0.next_tick(),
            };
            self.with_job(job_id, job.with_message(MessageView { sender, content, timestamp: stamp }))
        } else {
            self
        }
    }
}

/// Replacing a job by a well-formed job of the same identifier keeps the
/// store well formed, keeps every identifier where it was, and changes no
/// other job.
pub proof fn lemma_with_job_wf(market: MarketView, job_id: nat, job: JobView)
    requires
        market.wf(),
        market.has_job(job_id),
        job.wf(),
        job.id == job_id,
    ensures
        market.with_job(job_id, job).wf(),
        market.with_job(job_id, job).next_id == market.next_id,
        market.with_job(job_id, job).jobs.len() == market.jobs.len(),
        forall|other: nat| market.with_job(job_id, job).has_job(other) == market.has_job(other),
        market.with_job(job_id, job).job(job_id) == job,
        forall|other: nat|
            other != job_id && market.has_job(other) ==> market.with_job(job_id, job).job(other)
                == market.job(other),
{
    let after = market.with_job(job_id, job);
    let at = market.position(job_id)->0;
    lemma_position_valid(market, job_id);
    assert forall|i: int| 0 <= i < after.jobs.len() implies (#[trigger] after.jobs[i]).id
        == market.jobs[i].id by {}
    assert(after.wf());
    assert forall|other: nat| after.has_job(other) == market.has_job(other) by {
        if market.has_job(other) {
            lemma_position_valid(market, other);
            let i = market.position(other)->0;
            assert(after.jobs[i].id == other);
        }
        if after.has_job(other) {
            lemma_position_valid(after, other);
            let i = after.position(other)->0;
            assert(market.jobs[i].id == other);
        }
    }
    lemma_position_of(after, at);
    assert forall|other: nat| other != job_id && market.has_job(other) implies after.job(other)
        == market.job(other) by {
        lemma_position_valid(market, other);
        let i = market.position(other)->0;
        lemma_position_of(after, i);
    }
}

/// Removing a job keeps the store well formed, keeps the next identifier,
/// and changes no other job.
pub proof fn lemma_without_job_wf(market: MarketView, job_id: nat)
    requires
        market.wf(),
        market.has_job(job_id),
    ensures
        market.without_job(job_id).wf(),
        market.without_job(job_id).next_id == market.next_id,
        !market.without_job(job_id).has_job(job_id),
        forall|other: nat|
            other != job_id ==> market.without_job(job_id).has_job(other) == market.has_job(other),
        forall|other: nat|
            other != job_id && market.has_job(other) ==> market.without_job(job_id).job(other)
                == market.job(other),
{
    let after = market.without_job(job_id);
    let at = market.position(job_id)->0;
    lemma_position_valid(market, job_id);
    assert forall|i: int| 0 <= i < after.jobs.len() implies #[trigger] after.jobs[i] == (if i
        < at {
        market.jobs[i]
    } else {
        market.jobs[i + 1]
    }) by {}
    assert(after.wf()) by {
        assert forall|i: int, j: int| 0 <= i < j < after.jobs.len() implies after.jobs[i].id
            < after.jobs[j].id by {
            let oi = if i < at { i } else { i + 1 };
            let oj = if j < at { j } else { j + 1 };
            assert(market.jobs[oi].id < market.jobs[oj].id);
        }
    }
    if after.has_job(job_id) {
        lemma_position_valid(after, job_id);
        let i = after.position(job_id)->0;
        let oi = if i < at { i } else { i + 1 };
        lemma_position_of(market, oi);
    }
    assert forall|other: nat| other != job_id implies after.has_job(other) == market.has_job(
        other,
    ) by {
        if market.has_job(other) {
            lemma_position_valid(market, other);
            let i = market.position(other)->0;
            let ni = if i < at { i } else { i - 1 };
            assert(after.jobs[ni].id == other);
        }
        if after.has_job(other) {
            lemma_position_valid(after, other);
            let i = after.position(other)->0;
            let oi = if i < at { i } else { i + 1 };
            assert(market.jobs[oi].id == other);
        }
    }
    assert forall|other: nat| other != job_id && market.has_job(other) implies after.job(other)
        == market.job(other) by {
        lemma_position_valid(market, other);
        let i = market.position(other)->0;
        let ni = if i < at { i } else { i - 1 };
        assert(after.jobs[ni] == market.jobs[i]);
        lemma_position_of(after, ni);
    }
}

/// Appending a fresh job under the next identifier keeps the store well
/// formed and changes no job that was there.
pub proof fn lemma_create_job_wf(
    market: MarketView,
    title: Seq<char>,
    description: Seq<char>,
    budget: u64,
    deadline: Seq<char>,
    client: Seq<char>,
)
    requires
        market.wf(),
    ensures
        market.after_create_job(title, description, budget, deadline, client).wf(),
        forall|other: nat|
            market.has_job(other) ==> {
                &&& market.after_create_job(title, description, budget, deadline, client).has_job(
                    other,
                )
                &&& market.after_create_job(title, description, budget, deadline, client).job(other)
                    == market.job(other)
            },
        market.create_job_verdict(title, description, budget, deadline, client) matches Ok(id) ==> {
            &&& !market.has_job(id)
            &&& market.after_create_job(title, description, budget, deadline, client).has_job(id)
            &&& market.after_create_job(title, description, budget, deadline, client).job(id)
                == JobView::fresh(id, title, description, budget, deadline, client)
        },
{
    let after = market.after_create_job(title, description, budget, deadline, client);
    if market.create_job_verdict(title, description, budget, deadline, client) is Ok {
        let id = market.next_id;
        let last = market.jobs.len() as int;
        assert forall|i: int| 0 <= i < market.jobs.len() implies #[trigger] after.jobs[i]
            == market.jobs[i] by {}
        assert(after.jobs[last] == JobView::fresh(
            id,
            title,
            description,
            budget,
            deadline,
            client,
        ));
        assert(after.wf());
        assert forall|other: nat| market.has_job(other) implies after.has_job(other) && after.job(
            other,
        ) == market.job(other) by {
            lemma_position_valid(market, other);
            let i = market.position(other)->0;
            lemma_position_of(after, i);
        }
        if market.has_job(id) {
            lemma_position_valid(market, id);
        }
        lemma_position_of(after, last);
    }
}

/// Creating a job adds no identifier but the next one: a job found after it
/// was there before, or has the identifier that was the next.
pub proof fn lemma_create_job_adds_one(
    market: MarketView,
    title: Seq<char>,
    description: Seq<char>,
    budget: u64,
    deadline: Seq<char>,
    client: Seq<char>,
    job_id: nat,
)
    requires
        market.after_create_job(title, description, budget, deadline, client).has_job(job_id),
    ensures
        market.has_job(job_id) || job_id == market.next_id,
{
    let after = market.after_create_job(title, description, budget, deadline, client);
    lemma_position_valid(after, job_id);
    let at = after.position(job_id)->0;
    if market.create_job_verdict(title, description, budget, deadline, client) is Ok {
        if at < market.jobs.len() {
            assert(market.jobs[at].id == job_id);
        }
    }
}

/// The identifier of every job in a well-formed store lies below the next
/// identifier, so the next identifier is that of no job.
pub proof fn lemma_ids_below_next(market: MarketView, job_id: nat)
    requires
        market.wf(),
        market.has_job(job_id),
    ensures
        1 <= job_id < market.next_id,
{
    lemma_position_valid(market, job_id);
}

/// A well-formed open job stays well formed when a proposal within bounds
/// from a freelancer who has none on it is appended.
pub proof fn lemma_with_proposal_wf(job: JobView, proposal: ProposalView)
    requires
        job.wf(),
        job.status == JobStatus::Open,
        proposal.wf(),
        !proposal.accepted,
        !job.has_proposal_from(proposal.freelancer),
    ensures
        job.with_proposal(proposal).wf(),
{
    let after = job.with_proposal(proposal);
    assert forall|i: int, j: int| 0 <= i < j < after.proposals.len() implies after.proposals[i].freelancer
        != after.proposals[j].freelancer by {
        if j == job.proposals.len() {
            assert(job.proposals[i].freelancer != proposal.freelancer);
        } else {
            assert(job.proposals[i].freelancer != job.proposals[j].freelancer);
        }
    }
}

/// A well-formed job stays well formed when a proposal leaves it.
pub proof fn lemma_without_proposal_wf(job: JobView, freelancer: Seq<char>)
    requires
        job.wf(),
        job.has_proposal_from(freelancer),
    ensures
        job.without_proposal(freelancer).wf(),
        !job.without_proposal(freelancer).has_proposal_from(freelancer),
{
    let after = job.without_proposal(freelancer);
    let at = job.proposal_position(freelancer)->0;
    lemma_proposal_position_valid(job, freelancer);
    assert forall|i: int| 0 <= i < after.proposals.len() implies #[trigger] after.proposals[i]
        == (if i < at {
        job.proposals[i]
    } else {
        job.proposals[i + 1]
    }) by {}
    assert forall|i: int, j: int| 0 <= i < j < after.proposals.len() implies after.proposals[i].freelancer
        != after.proposals[j].freelancer by {
        let oi = if i < at { i } else { i + 1 };
        let oj = if j < at { j } else { j + 1 };
        assert(job.proposals[oi].freelancer != job.proposals[oj].freelancer);
    }
    assert(after.wf());
    if after.has_proposal_from(freelancer) {
        lemma_proposal_position_valid(after, freelancer);
        let i = after.proposal_position(freelancer)->0;
        let oi = if i < at { i } else { i + 1 };
        lemma_proposal_position_of(job, oi);
    }
}

/// Accepting a proposal on a well-formed job without a freelancer leaves a
/// well-formed job on which exactly one proposal carries the acceptance
/// flag: the one of the freelancer that is now assigned.
pub proof fn lemma_accepting_wf(job: JobView, freelancer: Seq<char>)
    requires
        job.wf(),
        job.freelancer is None,
        job.has_proposal_from(freelancer),
    ensures
        job.accepting(freelancer).wf(),
        job.accepting(freelancer).has_exactly_one_accepted(),
        job.accepting(freelancer).proposals[job.proposal_position(freelancer)->0].accepted,
        job.accepting(freelancer).proposals[job.proposal_position(freelancer)->0].freelancer
            == freelancer,
{
    let after = job.accepting(freelancer);
    let at = job.proposal_position(freelancer)->0;
    lemma_proposal_position_valid(job, freelancer);
    assert forall|i: int| 0 <= i < after.proposals.len() implies {
        &&& (#[trigger] after.proposals[i]).freelancer == job.proposals[i].freelancer
        &&& after.proposals[i].cover_letter == job.proposals[i].cover_letter
        &&& after.proposals[i].expected_budget == job.proposals[i].expected_budget
        &&& after.proposals[i].accepted == (i == at)
    } by {
        if i != at {
            assert(!job.proposals[i].accepted);
        }
    }
    assert forall|i: int, j: int| 0 <= i < j < after.proposals.len() implies after.proposals[i].freelancer
        != after.proposals[j].freelancer by {
        assert(job.proposals[i].freelancer != job.proposals[j].freelancer);
    }
    assert(after.wf());
    assert(after.proposals[at].accepted);
}

/// Submitting a proposal keeps a well-formed store well formed.
pub proof fn lemma_submit_proposal_wf(
    market: MarketView,
    job_id: nat,
    freelancer: Seq<char>,
    cover_letter: Seq<char>,
    expected_budget: u64,
)
    requires
        market.wf(),
    ensures
        market.after_submit_proposal(job_id, freelancer, cover_letter, expected_budget).wf(),
{
    if market.submit_proposal_verdict(job_id, freelancer, cover_letter, expected_budget) is Ok {
        lemma_position_valid(market, job_id);
        let proposal = ProposalView { freelancer, cover_letter, expected_budget, accepted: false };
        lemma_with_proposal_wf(market.job(job_id), proposal);
        lemma_with_job_wf(market, job_id, market.job(job_id).with_proposal(proposal));
    }
}

/// Accepting a proposal keeps a well-formed store well formed.
pub proof fn lemma_accept_proposal_wf(market: MarketView, job_id: nat, freelancer: Seq<char>)
    requires
        market.wf(),
    ensures
        market.after_accept_proposal(job_id, freelancer).wf(),
{
    if market.accept_proposal_verdict(job_id, freelancer) is Ok {
        lemma_position_valid(market, job_id);
        lemma_accepting_wf(market.job(job_id), freelancer);
        lemma_with_job_wf(market, job_id, market.job(job_id).accepting(freelancer));
    }
}

/// What a successful acceptance leaves behind: on that job exactly one
/// proposal carries the acceptance flag, and it is the named freelancer's;
/// that freelancer is assigned; the job is in progress; and an empty chat
/// between the job's client and that freelancer exists.
pub proof fn lemma_accept_proposal_effect(market: MarketView, job_id: nat, freelancer: Seq<char>)
    requires
        market.wf(),
        market.accept_proposal_verdict(job_id, freelancer) is Ok,
    ensures
        market.after_accept_proposal(job_id, freelancer).has_job(job_id),
        ({
            let job = market.after_accept_proposal(job_id, freelancer).job(job_id);
            &&& job.has_exactly_one_accepted()
            &&& forall|i: int|
                0 <= i < job.proposals.len() && (#[trigger] job.proposals[i]).accepted
                    ==> job.proposals[i].freelancer == freelancer
            &&& job.freelancer == Some(freelancer)
            &&& job.status == JobStatus::InProgress
            &&& job.chat == Some(
                ChatView {
                    client: market.job(job_id).client,
                    freelancer,
                    messages: Seq::<MessageView>::empty(),
                },
            )
        }),
{
    lemma_position_valid(market, job_id);
    lemma_accepting_wf(market.job(job_id), freelancer);
    lemma_with_job_wf(market, job_id, market.job(job_id).accepting(freelancer));
}

/// Rejecting a proposal keeps a well-formed store well formed.
pub proof fn lemma_reject_proposal_wf(market: MarketView, job_id: nat, freelancer: Seq<char>)
    requires
        market.wf(),
    ensures
        market.after_reject_proposal(job_id, freelancer).wf(),
{
    if market.reject_proposal_verdict(job_id, freelancer) is Ok {
        lemma_position_valid(market, job_id);
        lemma_without_proposal_wf(market.job(job_id), freelancer);
        lemma_with_job_wf(market, job_id, market.job(job_id).without_proposal(freelancer));
    }
}

/// Completing and disputing a job keep a well-formed store well formed.
pub proof fn lemma_close_job_wf(market: MarketView, job_id: nat, requester: Seq<char>)
    requires
        market.wf(),
    ensures
        market.after_complete_job(job_id, requester).wf(),
        market.after_dispute_job(job_id, requester).wf(),
{
    if market.close_job_verdict(job_id, requester) is Ok {
        lemma_position_valid(market, job_id);
        lemma_with_job_wf(market, job_id, market.job(job_id).with_status(JobStatus::Completed));
        lemma_with_job_wf(market, job_id, market.job(job_id).with_status(JobStatus::Disputed));
    }
}

/// Deleting a job keeps a well-formed store well formed.
pub proof fn lemma_delete_job_wf(market: MarketView, job_id: nat, requester: Seq<char>)
    requires
        market.wf(),
    ensures
        market.after_delete_job(job_id, requester).wf(),
{
    if market.delete_job_verdict(job_id, requester) is Ok {
        lemma_without_job_wf(market, job_id);
    }
}

/// Funding a job keeps a well-formed store well formed.
pub proof fn lemma_fund_job_wf(market: MarketView, job_id: nat, requester: Seq<char>)
    requires
        market.wf(),
    ensures
        market.after_fund_job(job_id, requester).wf(),
{
    if market.fund_job_verdict(job_id, requester) is Ok {
        lemma_position_valid(market, job_id);
        lemma_with_job_wf(market, job_id, market.job(job_id).funded_now());
    }
}

/// Sending a message keeps a well-formed store well formed.
pub proof fn lemma_send_message_wf(
    market: MarketView,
    job_id: nat,
    sender: Seq<char>,
    content: Seq<char>,
    timestamp: Option<u64>,
)
    requires
        market.wf(),
    ensures
        market.after_send_message(job_id, sender, content, timestamp).wf(),
{
    if market.send_message_verdict(job_id, sender, content) is Ok {
        lemma_position_valid(market, job_id);
        let job = market.job(job_id);
        let stamp = match timestamp {
            Some(given) => given as nat,
            None => job.chat->0.next_tick(),
        };
        let after_job = job.with_message(MessageView { sender, content, timestamp: stamp });
        assert(after_job.chat->0.wf());
        lemma_with_job_wf(market, job_id, after_job);
    }
}

} // verus!

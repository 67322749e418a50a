//! Sequences of operations. A history is what callers did to the store, one
//! operation after another; the store after a history is the store after
//! each of its operations in turn, refused ones leaving it as it was.
//!
//! The lemmas here say what a single operation can and cannot do to a job,
//! which is what the laws about histories are proved from.

use vstd::prelude::*;
use crate::model::{
    lemma_accepted_is_the_only_one, lemma_position_valid, ChatView, JobView, MarketView, MessageView, ProposalView,
};
use crate::rules::{
    lemma_accept_proposal_wf, lemma_accepting_wf, lemma_close_job_wf, lemma_create_job_adds_one,
    lemma_create_job_wf, lemma_delete_job_wf, lemma_fund_job_wf, lemma_reject_proposal_wf,
    lemma_send_message_wf, lemma_submit_proposal_wf, lemma_with_job_wf, lemma_with_proposal_wf,
    lemma_without_job_wf, lemma_without_proposal_wf,
};
use crate::status::JobStatus;

verus! {

/// One call of an operation that changes the store, with its arguments.
pub enum Operation {
    CreateJob {
        title: Seq<char>,
        description: Seq<char>,
        budget: u64,
        deadline: Seq<char>,
        client: Seq<char>,
    },
    SubmitProposal {
        job_id: nat,
        freelancer: Seq<char>,
        cover_letter: Seq<char>,
        expected_budget: u64,
    },
    AcceptProposal { job_id: nat, freelancer: Seq<char> },
    RejectProposal { job_id: nat, freelancer: Seq<char> },
    CompleteJob { job_id: nat, requester: Seq<char> },
    DisputeJob { job_id: nat, requester: Seq<char> },
    DeleteJob { job_id: nat, requester: Seq<char> },
    FundJob { job_id: nat, requester: Seq<char> },
    SendMessage { job_id: nat, sender: Seq<char>, content: Seq<char>, timestamp: Option<u64> },
}

impl Operation {
    /// The operation asks to accept a proposal on the job `job_id`.
    pub open spec fn accepts_on(self, job_id: nat) -> bool {
        self matches Operation::AcceptProposal { job_id: named, .. } && named == job_id
    }

    /// The operation asks to delete the job `job_id`.
    pub open spec fn deletes(self, job_id: nat) -> bool {
        self matches Operation::DeleteJob { job_id: named, .. } && named == job_id
    }

    /// The operation asks to reject the proposal of `freelancer` on the job
    /// `job_id`.
    pub open spec fn rejects(self, job_id: nat, freelancer: Seq<char>) -> bool {
        self matches Operation::RejectProposal { job_id: named, freelancer: who } && named
            == job_id && who == freelancer
    }
}

impl MarketView {
    /// The store after one operation.
    pub open spec fn after(self, op: Operation) -> MarketView {
        match op {
            Operation::CreateJob { title, description, budget, deadline, client } => {
                self.after_create_job(title, description, budget, deadline, client)
            },
            Operation::SubmitProposal { job_id, freelancer, cover_letter, expected_budget } => {
                self.after_submit_proposal(job_id, freelancer, cover_letter, expected_budget)
            },
            Operation::AcceptProposal { job_id, freelancer } => {
                self.after_accept_proposal(job_id, freelancer)
            },
            Operation::RejectProposal { job_id, freelancer } => {
                self.after_reject_proposal(job_id, freelancer)
            },
            Operation::CompleteJob { job_id, requester } => {
                self.after_complete_job(job_id, requester)
            },
            Operation::DisputeJob { job_id, requester } => {
                self.after_dispute_job(job_id, requester)
            },
            Operation::DeleteJob { job_id, requester } => self.after_delete_job(job_id, requester),
            Operation::FundJob { job_id, requester } => self.after_fund_job(job_id, requester),
            Operation::SendMessage { job_id, sender, content, timestamp } => {
                self.after_send_message(job_id, sender, content, timestamp)
            },
        }
    }

    /// The store after a history: after each of its operations in turn.
    pub open spec fn after_all(self, history: Seq<Operation>) -> MarketView
        decreases history.len(),
    {
        if history.len() == 0 {
            self
        } else {
            self.after_all(history.drop_last()).after(history.last())
        }
    }
}

/// What an operation may have done to a job that is still in the store:
/// the job has the same identifier and the same client, and
/// - its funded flag, once set, is set;
/// - its freelancer, once assigned, is the same, and is assigned only by an
///   operation that asks to accept a proposal on this job;
/// - its status, once terminal, is the same;
/// - a proposal that was on it is on it, and carries the acceptance flag if
///   it did, unless the operation asked to reject just that proposal;
/// - its chat, once opened, is there with the same participants, and what
///   was said in it is the beginning of what is said in it now.
#[verifier::opaque]
pub open spec fn carries_over(before: JobView, after: JobView, op: Operation) -> bool {
    &&& after.id == before.id
    &&& after.client == before.client
    &&& (before.funded ==> after.funded)
    &&& (before.freelancer is Some ==> after.freelancer == before.freelancer)
    &&& (before.freelancer is None && !op.accepts_on(before.id) ==> after.freelancer is None)
    &&& (before.status.terminal() ==> after.status == before.status)
    &&& forall|freelancer: Seq<char>|
        #![trigger after.has_proposal_from(freelancer)]
        before.has_proposal_from(freelancer) && !op.rejects(before.id, freelancer)
            ==> after.has_proposal_from(freelancer)
    &&& forall|freelancer: Seq<char>|
        #![trigger after.has_accepted_from(freelancer)]
        before.has_accepted_from(freelancer) && !op.rejects(before.id, freelancer)
            ==> after.has_accepted_from(freelancer)
    &&& (before.chat matches Some(earlier) ==> chat_continues(earlier, after.chat))
}

/// A chat goes on in what may be a chat: there is one, between the same
/// participants, and the earlier messages are the beginning of its messages.
pub open spec fn chat_continues(earlier: ChatView, later: Option<ChatView>) -> bool {
    &&& later matches Some(chat)
    &&& chat.client == earlier.client
    &&& chat.freelancer == earlier.freelancer
    &&& earlier.messages.is_prefix_of(chat.messages)
}

/// A job that gets one more proposal carries over.
proof fn lemma_with_proposal_carries(job: JobView, proposal: ProposalView, op: Operation)
    ensures
        carries_over(job, job.with_proposal(proposal), op),
{
    reveal(carries_over);
    let after = job.with_proposal(proposal);
    assert forall|who: Seq<char>| job.has_proposal_from(who) implies #[trigger] after.has_proposal_from(
        who,
    ) by {
        let at = job.proposal_position(who)->0;
        assert(after.proposals[at].freelancer == who);
    }
    assert forall|who: Seq<char>| job.has_accepted_from(who) implies #[trigger] after.has_accepted_from(
        who,
    ) by {
        let at = choose|i: int|
            0 <= i < job.proposals.len() && (#[trigger] job.proposals[i]).freelancer == who
                && job.proposals[i].accepted;
        assert(after.proposals[at].freelancer == who && after.proposals[at].accepted);
    }
}

/// A job without a freelancer on which a proposal is accepted carries over
/// an operation that asks to accept on it.
proof fn lemma_accepting_carries(job: JobView, freelancer: Seq<char>, op: Operation)
    requires
        job.wf(),
        job.freelancer is None,
        job.has_proposal_from(freelancer),
        op.accepts_on(job.id),
    ensures
        carries_over(job, job.accepting(freelancer), op),
{
    reveal(carries_over);
    let after = job.accepting(freelancer);
    assert forall|who: Seq<char>| job.has_proposal_from(who) implies #[trigger] after.has_proposal_from(
        who,
    ) by {
        let at = job.proposal_position(who)->0;
        assert(after.proposals[at].freelancer == who);
    }
    assert forall|who: Seq<char>| job.has_accepted_from(who) implies #[trigger] after.has_accepted_from(
        who,
    ) by {
        lemma_accepted_is_the_only_one(job, who);
    }
}

/// A job that loses the proposal of `freelancer` carries over an operation
/// that asks to reject just that proposal.
proof fn lemma_without_proposal_carries(job: JobView, freelancer: Seq<char>, op: Operation)
    requires
        job.has_proposal_from(freelancer),
        op.rejects(job.id, freelancer),
    ensures
        carries_over(job, job.without_proposal(freelancer), op),
{
    reveal(carries_over);
    let after = job.without_proposal(freelancer);
    let gone = job.proposal_position(freelancer)->0;
    assert forall|who: Seq<char>|
        job.has_proposal_from(who) && who != freelancer implies #[trigger] after.has_proposal_from(
        who,
    ) by {
        let at = job.proposal_position(who)->0;
        let moved = if at < gone {
            at
        } else {
            at - 1
        };
        assert(after.proposals[moved].freelancer == who);
    }
    assert forall|who: Seq<char>|
        job.has_accepted_from(who) && who != freelancer implies #[trigger] after.has_accepted_from(
        who,
    ) by {
        let at = choose|i: int|
            0 <= i < job.proposals.len() && (#[trigger] job.proposals[i]).freelancer == who
                && job.proposals[i].accepted;
        let moved = if at < gone {
            at
        } else {
            at - 1
        };
        assert(at != gone);
        assert(after.proposals[moved].freelancer == who && after.proposals[moved].accepted);
    }
}

/// A job whose status, funded flag or chat alone changes carries over, as
/// long as a terminal status stays.
proof fn lemma_same_proposals_carry(job: JobView, after: JobView, op: Operation)
    requires
        after.id == job.id,
        after.client == job.client,
        after.freelancer == job.freelancer,
        after.proposals == job.proposals,
        job.funded ==> after.funded,
        job.status.terminal() ==> after.status == job.status,
        job.chat matches Some(earlier) ==> chat_continues(earlier, after.chat),
    ensures
        carries_over(job, after, op),
{
    reveal(carries_over);
    assert forall|who: Seq<char>| job.has_proposal_from(who) implies #[trigger] after.has_proposal_from(
        who,
    ) by {
        let at = job.proposal_position(who)->0;
        assert(after.proposals[at].freelancer == who);
    }
    assert forall|who: Seq<char>| job.has_accepted_from(who) implies #[trigger] after.has_accepted_from(
        who,
    ) by {
        let at = choose|i: int|
            0 <= i < job.proposals.len() && (#[trigger] job.proposals[i]).freelancer == who
                && job.proposals[i].accepted;
        assert(after.proposals[at].freelancer == who && after.proposals[at].accepted);
    }
}

/// Where an operation replaces the job `named` by a well-formed job that
/// carries over, every job of the store is still there and carries over.
proof fn lemma_replaced_carries(
    market: MarketView,
    named: nat,
    replaced: JobView,
    op: Operation,
    job_id: nat,
)
    requires
        market.wf(),
        market.has_job(named),
        market.has_job(job_id),
        replaced.wf(),
        replaced.id == named,
        carries_over(market.job(named), replaced, op),
    ensures
        market.with_job(named, replaced).has_job(job_id),
        carries_over(market.job(job_id), market.with_job(named, replaced).job(job_id), op),
{
    lemma_with_job_wf(market, named, replaced);
    lemma_position_valid(market, named);
    if named != job_id {
        lemma_same_proposals_carry(market.job(job_id), market.job(job_id), op);
    }
}

/// What the store says of a job before and after a step: the job is gone
/// only if the operation asked to delete it and it had no freelancer;
/// otherwise it carries over.
pub open spec fn step_keeps(
    market: MarketView,
    after: MarketView,
    op: Operation,
    job_id: nat,
) -> bool {
    &&& !after.has_job(job_id) ==> op.deletes(job_id) && market.job(job_id).freelancer is None
    &&& after.has_job(job_id) ==> carries_over(market.job(job_id), after.job(job_id), op)
}

/// A step that leaves the store as it was keeps every job.
proof fn lemma_idle_keeps(market: MarketView, op: Operation, job_id: nat)
    requires
        market.has_job(job_id),
    ensures
        step_keeps(market, market, op, job_id),
{
    lemma_same_proposals_carry(market.job(job_id), market.job(job_id), op);
}

/// Creating a job keeps every job that was there.
proof fn lemma_create_keeps(market: MarketView, op: Operation, job_id: nat)
    requires
        market.wf(),
        market.has_job(job_id),
        op is CreateJob,
    ensures
        step_keeps(market, market.after(op), op, job_id),
{
    lemma_idle_keeps(market, op, job_id);
    if let Operation::CreateJob { title, description, budget, deadline, client } = op {
        lemma_create_job_wf(market, title, description, budget, deadline, client);
    }
}

/// Submitting a proposal keeps every job.
proof fn lemma_submit_keeps(market: MarketView, op: Operation, job_id: nat)
    requires
        market.wf(),
        market.has_job(job_id),
        op is SubmitProposal,
    ensures
        step_keeps(market, market.after(op), op, job_id),
{
    lemma_idle_keeps(market, op, job_id);
    if let Operation::SubmitProposal { job_id: named, freelancer, cover_letter, expected_budget } =
        op {
        if market.submit_proposal_verdict(named, freelancer, cover_letter, expected_budget) is Ok {
            lemma_position_valid(market, named);
            let proposal = ProposalView { freelancer, cover_letter, expected_budget, accepted: false };
            lemma_with_proposal_wf(market.job(named), proposal);
            lemma_with_proposal_carries(market.job(named), proposal, op);
            lemma_replaced_carries(
                market,
                named,
                market.job(named).with_proposal(proposal),
                op,
                job_id,
            );
        }
    }
}

/// Accepting a proposal keeps every job.
proof fn lemma_accept_keeps(market: MarketView, op: Operation, job_id: nat)
    requires
        market.wf(),
        market.has_job(job_id),
        op is AcceptProposal,
    ensures
        step_keeps(market, market.after(op), op, job_id),
{
    lemma_idle_keeps(market, op, job_id);
    if let Operation::AcceptProposal { job_id: named, freelancer } = op {
        if market.accept_proposal_verdict(named, freelancer) is Ok {
            lemma_position_valid(market, named);
            lemma_accepting_wf(market.job(named), freelancer);
            lemma_accepting_carries(market.job(named), freelancer, op);
            lemma_replaced_carries(
                market,
                named,
                market.job(named).accepting(freelancer),
                op,
                job_id,
            );
        }
    }
}

/// Rejecting a proposal keeps every job.
proof fn lemma_reject_keeps(market: MarketView, op: Operation, job_id: nat)
    requires
        market.wf(),
        market.has_job(job_id),
        op is RejectProposal,
    ensures
        step_keeps(market, market.after(op), op, job_id),
{
    lemma_idle_keeps(market, op, job_id);
    if let Operation::RejectProposal { job_id: named, freelancer } = op {
        if market.reject_proposal_verdict(named, freelancer) is Ok {
            lemma_position_valid(market, named);
            lemma_without_proposal_wf(market.job(named), freelancer);
            lemma_without_proposal_carries(market.job(named), freelancer, op);
            lemma_replaced_carries(
                market,
                named,
                market.job(named).without_proposal(freelancer),
                op,
                job_id,
            );
        }
    }
}

/// Completing and disputing keep every job.
proof fn lemma_close_keeps(market: MarketView, op: Operation, job_id: nat)
    requires
        market.wf(),
        market.has_job(job_id),
        op is CompleteJob || op is DisputeJob,
    ensures
        step_keeps(market, market.after(op), op, job_id),
{
    lemma_idle_keeps(market, op, job_id);
    match op {
        Operation::CompleteJob { job_id: named, requester } => {
            if market.close_job_verdict(named, requester) is Ok {
                lemma_position_valid(market, named);
                let replaced = market.job(named).with_status(JobStatus::Completed);
                lemma_same_proposals_carry(market.job(named), replaced, op);
                lemma_replaced_carries(market, named, replaced, op, job_id);
            }
        },
        Operation::DisputeJob { job_id: named, requester } => {
            if market.close_job_verdict(named, requester) is Ok {
                lemma_position_valid(market, named);
                let replaced = market.job(named).with_status(JobStatus::Disputed);
                lemma_same_proposals_carry(market.job(named), replaced, op);
                lemma_replaced_carries(market, named, replaced, op, job_id);
            }
        },
        _ => {},
    }
}

/// Deleting a job keeps every other job, and takes the job itself only
/// where it has no freelancer.
proof fn lemma_delete_keeps(market: MarketView, op: Operation, job_id: nat)
    requires
        market.wf(),
        market.has_job(job_id),
        op is DeleteJob,
    ensures
        step_keeps(market, market.after(op), op, job_id),
{
    lemma_idle_keeps(market, op, job_id);
    if let Operation::DeleteJob { job_id: named, requester } = op {
        if market.delete_job_verdict(named, requester) is Ok {
            lemma_without_job_wf(market, named);
        }
    }
}

/// Funding a job keeps every job.
proof fn lemma_fund_keeps(market: MarketView, op: Operation, job_id: nat)
    requires
        market.wf(),
        market.has_job(job_id),
        op is FundJob,
    ensures
        step_keeps(market, market.after(op), op, job_id),
{
    lemma_idle_keeps(market, op, job_id);
    if let Operation::FundJob { job_id: named, requester } = op {
        if market.fund_job_verdict(named, requester) is Ok {
            lemma_position_valid(market, named);
            let replaced = market.job(named).funded_now();
            lemma_same_proposals_carry(market.job(named), replaced, op);
            lemma_replaced_carries(market, named, replaced, op, job_id);
        }
    }
}

/// Sending a message keeps every job.
proof fn lemma_send_keeps(market: MarketView, op: Operation, job_id: nat)
    requires
        market.wf(),
        market.has_job(job_id),
        op is SendMessage,
    ensures
        step_keeps(market, market.after(op), op, job_id),
{
    lemma_idle_keeps(market, op, job_id);
    if let Operation::SendMessage { job_id: named, sender, content, timestamp } = op {
        if market.send_message_verdict(named, sender, content) is Ok {
            lemma_position_valid(market, named);
            let old_job = market.job(named);
            let stamp = match timestamp {
                Some(given) => given as nat,
                None => old_job.chat->0.next_tick(),
            };
            let replaced = old_job.with_message(MessageView { sender, content, timestamp: stamp });
            assert(replaced.chat->0.wf());
            lemma_same_proposals_carry(old_job, replaced, op);
            lemma_replaced_carries(market, named, replaced, op, job_id);
        }
    }
}

/// What one operation does to a job that was in the store before it: the
/// job is gone only if the operation asked to delete it and it had no
/// freelancer. Otherwise it is still there, under the same identifier and
/// for the same client; its funded flag, once set, is set; its freelancer,
/// once assigned, is the same, and is assigned only by an operation that
/// asks to accept a proposal on this job; its status, once terminal, is the
/// same; a proposal that was on it is on it, and accepted if it was, unless
/// the operation asked to reject just that proposal; and its chat, once
/// opened, goes on.
pub proof fn lemma_step_on_job(market: MarketView, op: Operation, job_id: nat)
    requires
        market.wf(),
        market.has_job(job_id),
    ensures
        !market.after(op).has_job(job_id) ==> op.deletes(job_id) && market.job(job_id).freelancer
            is None,
        market.after(op).has_job(job_id) ==> {
            let before = market.job(job_id);
            let after = market.after(op).job(job_id);
            &&& after.id == before.id
            &&& after.client == before.client
            &&& (before.funded ==> after.funded)
            &&& (before.freelancer is Some ==> after.freelancer == before.freelancer)
            &&& (before.freelancer is None && !op.accepts_on(job_id) ==> after.freelancer is None)
            &&& (before.status.terminal() ==> after.status == before.status)
            &&& forall|freelancer: Seq<char>|
                #![trigger after.has_proposal_from(freelancer)]
                before.has_proposal_from(freelancer) && !op.rejects(job_id, freelancer)
                    ==> after.has_proposal_from(freelancer)
            &&& forall|freelancer: Seq<char>|
                #![trigger after.has_accepted_from(freelancer)]
                before.has_accepted_from(freelancer) && !op.rejects(job_id, freelancer)
                    ==> after.has_accepted_from(freelancer)
            &&& (before.chat matches Some(earlier) ==> chat_continues(earlier, after.chat))
        },
{
    match op {
        Operation::CreateJob { .. } => lemma_create_keeps(market, op, job_id),
        Operation::SubmitProposal { .. } => lemma_submit_keeps(market, op, job_id),
        Operation::AcceptProposal { .. } => lemma_accept_keeps(market, op, job_id),
        Operation::RejectProposal { .. } => lemma_reject_keeps(market, op, job_id),
        Operation::CompleteJob { .. } => lemma_close_keeps(market, op, job_id),
        Operation::DisputeJob { .. } => lemma_close_keeps(market, op, job_id),
        Operation::DeleteJob { .. } => lemma_delete_keeps(market, op, job_id),
        Operation::FundJob { .. } => lemma_fund_keeps(market, op, job_id),
        Operation::SendMessage { .. } => lemma_send_keeps(market, op, job_id),
    }
    assert(step_keeps(market, market.after(op), op, job_id));
    lemma_position_valid(market, job_id);
    reveal(carries_over);
}

/// An identifier that was handed out and whose job is gone stays without a
/// job: no operation brings it back.
pub proof fn lemma_step_never_revives(market: MarketView, op: Operation, job_id: nat)
    requires
        market.wf(),
        !market.has_job(job_id),
        job_id < market.next_id,
    ensures
        !market.after(op).has_job(job_id),
{
    match op {
        Operation::CreateJob { title, description, budget, deadline, client } => {
            if market.after(op).has_job(job_id) {
                lemma_create_job_adds_one(
                    market,
                    title,
                    description,
                    budget,
                    deadline,
                    client,
                    job_id,
                );
            }
        },
        Operation::SubmitProposal { job_id: named, freelancer, cover_letter, expected_budget } => {
            if market.submit_proposal_verdict(named, freelancer, cover_letter, expected_budget)
                is Ok {
                lemma_position_valid(market, named);
                let proposal = ProposalView {
                    freelancer,
                    cover_letter,
                    expected_budget,
                    accepted: false,
                };
                lemma_with_proposal_wf(market.job(named), proposal);
                lemma_with_job_wf(market, named, market.job(named).with_proposal(proposal));
            }
        },
        Operation::AcceptProposal { job_id: named, freelancer } => {
            if market.accept_proposal_verdict(named, freelancer) is Ok {
                lemma_position_valid(market, named);
                lemma_accepting_wf(market.job(named), freelancer);
                lemma_with_job_wf(market, named, market.job(named).accepting(freelancer));
            }
        },
        Operation::RejectProposal { job_id: named, freelancer } => {
            if market.reject_proposal_verdict(named, freelancer) is Ok {
                lemma_position_valid(market, named);
                lemma_without_proposal_wf(market.job(named), freelancer);
                lemma_with_job_wf(market, named, market.job(named).without_proposal(freelancer));
            }
        },
        Operation::CompleteJob { job_id: named, requester } => {
            if market.close_job_verdict(named, requester) is Ok {
                lemma_position_valid(market, named);
                lemma_with_job_wf(
                    market,
                    named,
                    market.job(named).with_status(JobStatus::Completed),
                );
            }
        },
        Operation::DisputeJob { job_id: named, requester } => {
            if market.close_job_verdict(named, requester) is Ok {
                lemma_position_valid(market, named);
                lemma_with_job_wf(market, named, market.job(named).with_status(JobStatus::Disputed));
            }
        },
        Operation::DeleteJob { job_id: named, requester } => {
            if market.delete_job_verdict(named, requester) is Ok {
                lemma_without_job_wf(market, named);
            }
        },
        Operation::FundJob { job_id: named, requester } => {
            if market.fund_job_verdict(named, requester) is Ok {
                lemma_position_valid(market, named);
                lemma_with_job_wf(market, named, market.job(named).funded_now());
            }
        },
        Operation::SendMessage { job_id: named, sender, content, timestamp } => {
            if market.send_message_verdict(named, sender, content) is Ok {
                lemma_position_valid(market, named);
                let old_job = market.job(named);
                let stamp = match timestamp {
                    Some(given) => given as nat,
                    None => old_job.chat->0.next_tick(),
                };
                let replaced = old_job.with_message(
                    MessageView { sender, content, timestamp: stamp },
                );
                assert(replaced.chat->0.wf());
                lemma_with_job_wf(market, named, replaced);
            }
        },
    }
}

/// One operation keeps a well-formed store well formed and never moves the
/// next identifier back.
pub proof fn lemma_step_wf(market: MarketView, op: Operation)
    requires
        market.wf(),
    ensures
        market.after(op).wf(),
        market.after(op).next_id >= market.next_id,
{
    match op {
        Operation::CreateJob { title, description, budget, deadline, client } => {
            lemma_create_job_wf(market, title, description, budget, deadline, client);
        },
        Operation::SubmitProposal { job_id, freelancer, cover_letter, expected_budget } => {
            lemma_submit_proposal_wf(market, job_id, freelancer, cover_letter, expected_budget);
        },
        Operation::AcceptProposal { job_id, freelancer } => {
            lemma_accept_proposal_wf(market, job_id, freelancer);
        },
        Operation::RejectProposal { job_id, freelancer } => {
            lemma_reject_proposal_wf(market, job_id, freelancer);
        },
        Operation::CompleteJob { job_id, requester } => {
            lemma_close_job_wf(market, job_id, requester);
        },
        Operation::DisputeJob { job_id, requester } => {
            lemma_close_job_wf(market, job_id, requester);
        },
        Operation::DeleteJob { job_id, requester } => {
            lemma_delete_job_wf(market, job_id, requester);
        },
        Operation::FundJob { job_id, requester } => {
            lemma_fund_job_wf(market, job_id, requester);
        },
        Operation::SendMessage { job_id, sender, content, timestamp } => {
            lemma_send_message_wf(market, job_id, sender, content, timestamp);
        },
    }
}

/// A history keeps a well-formed store well formed and never moves the next
/// identifier back.
pub proof fn lemma_history_wf(market: MarketView, history: Seq<Operation>)
    requires
        market.wf(),
    ensures
        market.after_all(history).wf(),
        market.after_all(history).next_id >= market.next_id,
    decreases history.len(),
{
    if history.len() > 0 {
        lemma_history_wf(market, history.drop_last());
        lemma_step_wf(market.after_all(history.drop_last()), history.last());
    }
}

} // verus!

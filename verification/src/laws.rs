//! The laws of the marketplace: what holds of every store that operations
//! can lead to, whatever was done to it in between. Each is stated over the
//! model and its rules, which are what the operations of the marketplace
//! are proved to follow.

use vstd::prelude::*;
use crate::error::MarketError;
use crate::history::{
    chat_continues, lemma_history_wf, lemma_step_never_revives, lemma_step_on_job, Operation,
};
use crate::model::{
    lemma_accepted_is_the_only_one, lemma_position_valid, JobView, MarketView, ProposalView,
};
use crate::rules::{
    lemma_accept_proposal_effect, lemma_accept_proposal_wf, lemma_close_job_wf,
    lemma_create_job_wf, lemma_fund_job_wf, lemma_ids_below_next, lemma_submit_proposal_wf,
    lemma_with_job_wf, lemma_with_proposal_wf,
};
use crate::status::JobStatus;

verus! {

/// No operation of the history asks to accept a proposal on the job.
pub open spec fn none_accepts_on(history: Seq<Operation>, job_id: nat) -> bool {
    forall|i: int| 0 <= i < history.len() ==> !(#[trigger] history[i]).accepts_on(job_id)
}

/// No operation of the history asks to delete the job.
pub open spec fn none_deletes(history: Seq<Operation>, job_id: nat) -> bool {
    forall|i: int| 0 <= i < history.len() ==> !(#[trigger] history[i]).deletes(job_id)
}

/// No operation of the history asks to reject the proposal of `freelancer`
/// on the job.
pub open spec fn none_rejects(history: Seq<Operation>, job_id: nat, freelancer: Seq<char>) -> bool {
    forall|i: int| 0 <= i < history.len() ==> !(#[trigger] history[i]).rejects(job_id, freelancer)
}

/// Whatever is done to an empty marketplace, the store keeps its
/// invariants: identifiers are unique and below the next one; no job is
/// cancelled; a job is open exactly as long as it has no freelancer and has
/// a chat exactly when it has one; and at most one proposal per job carries
/// the acceptance flag, that of the assigned freelancer.
pub proof fn law_store_stays_well_formed(history: Seq<Operation>)
    ensures
        MarketView::empty().wf(),
        MarketView::empty().after_all(history).wf(),
{
    lemma_history_wf(MarketView::empty(), history);
}

/// An identifier whose job is gone never names a job again, whatever is
/// done afterwards.
pub proof fn law_identifier_never_returns(market: MarketView, history: Seq<Operation>, job_id: nat)
    requires
        market.wf(),
        job_id < market.next_id,
        !market.has_job(job_id),
    ensures
        !market.after_all(history).has_job(job_id),
    decreases history.len(),
{
    if history.len() > 0 {
        let earlier = market.after_all(history.drop_last());
        law_identifier_never_returns(market, history.drop_last(), job_id);
        lemma_history_wf(market, history.drop_last());
        lemma_step_never_revives(earlier, history.last(), job_id);
    }
}

/// Of two jobs created one after the other, with anything done in between,
/// deletions included, the later has the greater identifier; and the
/// identifier of the later is that of no job that is or ever was in the
/// store.
pub proof fn law_identifiers_strictly_increase(
    market: MarketView,
    first_title: Seq<char>,
    first_description: Seq<char>,
    first_budget: u64,
    first_deadline: Seq<char>,
    first_client: Seq<char>,
    history: Seq<Operation>,
    second_title: Seq<char>,
    second_description: Seq<char>,
    second_budget: u64,
    second_deadline: Seq<char>,
    second_client: Seq<char>,
)
    requires
        market.wf(),
        market.create_job_verdict(
            first_title,
            first_description,
            first_budget,
            first_deadline,
            first_client,
        ) is Ok,
        market.after_create_job(
            first_title,
            first_description,
            first_budget,
            first_deadline,
            first_client,
        ).after_all(history).create_job_verdict(
            second_title,
            second_description,
            second_budget,
            second_deadline,
            second_client,
        ) is Ok,
    ensures
        ({
            let first = market.create_job_verdict(
                first_title,
                first_description,
                first_budget,
                first_deadline,
                first_client,
            )->Ok_0;
            let later = market.after_create_job(
                first_title,
                first_description,
                first_budget,
                first_deadline,
                first_client,
            ).after_all(history);
            let second = later.create_job_verdict(
                second_title,
                second_description,
                second_budget,
                second_deadline,
                second_client,
            )->Ok_0;
            &&& first < second
            &&& !later.has_job(second)
            &&& !market.has_job(second)
        }),
{
    let created = market.after_create_job(
        first_title,
        first_description,
        first_budget,
        first_deadline,
        first_client,
    );
    lemma_create_job_wf(
        market,
        first_title,
        first_description,
        first_budget,
        first_deadline,
        first_client,
    );
    lemma_history_wf(created, history);
    let later = created.after_all(history);
    if later.has_job(later.next_id) {
        lemma_ids_below_next(later, later.next_id);
    }
    if market.has_job(later.next_id) {
        lemma_ids_below_next(market, later.next_id);
    }
}

/// In a well-formed job the acceptance flag and the assignment go together:
/// a job without a freelancer has no accepted proposal, a job with an
/// accepted proposal has its freelancer assigned, and no job has two
/// accepted proposals.
pub proof fn law_acceptance_goes_with_assignment(job: JobView)
    requires
        job.wf(),
    ensures
        job.freelancer is None ==> job.has_none_accepted(),
        !job.has_none_accepted() ==> job.has_exactly_one_accepted() && job.freelancer is Some,
{
    if !job.has_none_accepted() {
        let at = choose|i: int| 0 <= i < job.proposals.len() && (#[trigger] job.proposals[i]).accepted;
        lemma_accepted_is_the_only_one(job, job.proposals[at].freelancer);
    }
}

/// A job with a freelancer stays in the store with that freelancer and its
/// client, whatever is done: it cannot be deleted, and no operation assigns
/// another freelancer. Its funded flag, once set, stays set, and its status,
/// once terminal, stays.
pub proof fn law_assignment_is_permanent(market: MarketView, history: Seq<Operation>, job_id: nat)
    requires
        market.wf(),
        market.has_job(job_id),
        market.job(job_id).freelancer is Some,
    ensures
        market.after_all(history).wf(),
        market.after_all(history).has_job(job_id),
        market.after_all(history).job(job_id).freelancer == market.job(job_id).freelancer,
        market.after_all(history).job(job_id).client == market.job(job_id).client,
        market.job(job_id).funded ==> market.after_all(history).job(job_id).funded,
        market.job(job_id).status.terminal() ==> market.after_all(history).job(job_id).status
            == market.job(job_id).status,
    decreases history.len(),
{
    if history.len() > 0 {
        let earlier = market.after_all(history.drop_last());
        law_assignment_is_permanent(market, history.drop_last(), job_id);
        lemma_step_on_job(earlier, history.last(), job_id);
        lemma_history_wf(market, history);
    }
}

/// A job without a freelancer, as long as it is in the store, has none
/// after a history in which no operation asks to accept a proposal on it.
pub proof fn law_only_acceptance_assigns(market: MarketView, history: Seq<Operation>, job_id: nat)
    requires
        market.wf(),
        market.has_job(job_id),
        market.job(job_id).freelancer is None,
        none_accepts_on(history, job_id),
    ensures
        market.after_all(history).has_job(job_id) ==> market.after_all(history).job(
            job_id,
        ).freelancer is None,
    decreases history.len(),
{
    if history.len() > 0 {
        let rest = history.drop_last();
        let earlier = market.after_all(rest);
        assert forall|i: int| 0 <= i < rest.len() implies !(#[trigger] rest[i]).accepts_on(
            job_id,
        ) by {
            assert(rest[i] == history[i]);
        }
        law_only_acceptance_assigns(market, rest, job_id);
        lemma_history_wf(market, rest);
        lemma_ids_below_next(market, job_id);
        if earlier.has_job(job_id) {
            assert(!history[history.len() - 1].accepts_on(job_id));
            lemma_step_on_job(earlier, history.last(), job_id);
        } else {
            lemma_step_never_revives(earlier, history.last(), job_id);
        }
    }
}

/// A second proposal of the same freelancer on the same job is refused as
/// a duplicate, whatever the cover letter and the budget, and changes
/// nothing. This holds right after the first and after any history in
/// between that does not ask to accept a proposal on the job, to delete the
/// job, or to reject that very proposal.
pub proof fn law_second_submission_is_duplicate(
    market: MarketView,
    job_id: nat,
    freelancer: Seq<char>,
    cover_letter: Seq<char>,
    expected_budget: u64,
    history: Seq<Operation>,
    second_cover_letter: Seq<char>,
    second_expected_budget: u64,
)
    requires
        market.wf(),
        market.submit_proposal_verdict(job_id, freelancer, cover_letter, expected_budget) is Ok,
        none_accepts_on(history, job_id),
        none_deletes(history, job_id),
        none_rejects(history, job_id, freelancer),
    ensures
        ({
            let later = market.after_submit_proposal(
                job_id,
                freelancer,
                cover_letter,
                expected_budget,
            ).after_all(history);
            &&& later.submit_proposal_verdict(
                job_id,
                freelancer,
                second_cover_letter,
                second_expected_budget,
            ) == Err::<(), MarketError>(MarketError::Duplicate)
            &&& later.after_submit_proposal(
                job_id,
                freelancer,
                second_cover_letter,
                second_expected_budget,
            ) == later
        }),
{
    let submitted = market.after_submit_proposal(job_id, freelancer, cover_letter, expected_budget);
    lemma_submit_proposal_wf(market, job_id, freelancer, cover_letter, expected_budget);
    lemma_position_valid(market, job_id);
    let proposal = ProposalView { freelancer, cover_letter, expected_budget, accepted: false };
    let with_it = market.job(job_id).with_proposal(proposal);
    lemma_with_proposal_wf(market.job(job_id), proposal);
    lemma_with_job_wf(market, job_id, with_it);
    assert(with_it.proposals[with_it.proposals.len() - 1].freelancer == freelancer);
    assert(with_it.has_proposal_from(freelancer));
    lemma_open_proposal_stays(submitted, history, job_id, freelancer);
}

/// An open job keeps a proposal, stays in the store and stays open through
/// a history that asks neither to accept on it, nor to delete it, nor to
/// reject that proposal.
proof fn lemma_open_proposal_stays(
    market: MarketView,
    history: Seq<Operation>,
    job_id: nat,
    freelancer: Seq<char>,
)
    requires
        market.wf(),
        market.has_job(job_id),
        market.job(job_id).freelancer is None,
        market.job(job_id).has_proposal_from(freelancer),
        none_accepts_on(history, job_id),
        none_deletes(history, job_id),
        none_rejects(history, job_id, freelancer),
    ensures
        market.after_all(history).wf(),
        market.after_all(history).has_job(job_id),
        market.after_all(history).job(job_id).freelancer is None,
        market.after_all(history).job(job_id).status == JobStatus::Open,
        market.after_all(history).job(job_id).has_proposal_from(freelancer),
    decreases history.len(),
{
    lemma_position_valid(market, job_id);
    if history.len() > 0 {
        let rest = history.drop_last();
        let earlier = market.after_all(rest);
        assert forall|i: int| 0 <= i < rest.len() implies {
            &&& !(#[trigger] rest[i]).accepts_on(job_id)
            &&& !rest[i].deletes(job_id)
            &&& !rest[i].rejects(job_id, freelancer)
        } by {
            assert(rest[i] == history[i]);
        }
        lemma_open_proposal_stays(market, rest, job_id, freelancer);
        let last = history[history.len() - 1];
        assert(!last.accepts_on(job_id) && !last.deletes(job_id) && !last.rejects(
            job_id,
            freelancer,
        ));
        lemma_step_on_job(earlier, history.last(), job_id);
        lemma_history_wf(market, history);
        lemma_position_valid(market.after_all(history), job_id);
    }
}

/// Once a proposal has been accepted on a job, every further acceptance on
/// that job, whichever freelancer it names and whatever was done in
/// between, is refused as a conflict and changes nothing.
pub proof fn law_acceptance_is_exclusive(
    market: MarketView,
    job_id: nat,
    freelancer: Seq<char>,
    history: Seq<Operation>,
    other_freelancer: Seq<char>,
)
    requires
        market.wf(),
        market.accept_proposal_verdict(job_id, freelancer) is Ok,
    ensures
        ({
            let later = market.after_accept_proposal(job_id, freelancer).after_all(history);
            &&& later.accept_proposal_verdict(job_id, other_freelancer) == Err::<(), MarketError>(
                MarketError::Conflict,
            )
            &&& later.after_accept_proposal(job_id, other_freelancer) == later
            &&& later.job(job_id).freelancer == Some(freelancer)
        }),
{
    let accepted = market.after_accept_proposal(job_id, freelancer);
    lemma_accept_proposal_effect(market, job_id, freelancer);
    lemma_accept_proposal_wf(market, job_id, freelancer);
    law_assignment_is_permanent(accepted, history, job_id);
}

/// The accepted proposal of a job stays accepted, and stays the only
/// accepted one, through every history that does not ask to reject it; the
/// job stays in the store with its freelancer. So a job with a freelancer
/// has exactly one accepted proposal for as long as nobody asks to reject
/// that proposal.
pub proof fn law_accepted_proposal_stays(
    market: MarketView,
    history: Seq<Operation>,
    job_id: nat,
    freelancer: Seq<char>,
)
    requires
        market.wf(),
        market.has_job(job_id),
        market.job(job_id).has_accepted_from(freelancer),
        none_rejects(history, job_id, freelancer),
    ensures
        market.after_all(history).has_job(job_id),
        market.after_all(history).job(job_id).has_accepted_from(freelancer),
        market.after_all(history).job(job_id).has_exactly_one_accepted(),
        market.after_all(history).job(job_id).freelancer == Some(freelancer),
    decreases history.len(),
{
    lemma_position_valid(market, job_id);
    lemma_accepted_is_the_only_one(market.job(job_id), freelancer);
    if history.len() > 0 {
        let rest = history.drop_last();
        let earlier = market.after_all(rest);
        assert forall|i: int| 0 <= i < rest.len() implies !(#[trigger] rest[i]).rejects(
            job_id,
            freelancer,
        ) by {
            assert(rest[i] == history[i]);
        }
        law_accepted_proposal_stays(market, rest, job_id, freelancer);
        lemma_history_wf(market, rest);
        assert(!history[history.len() - 1].rejects(job_id, freelancer));
        lemma_step_on_job(earlier, history.last(), job_id);
        lemma_history_wf(market, history);
        let later = market.after_all(history);
        lemma_position_valid(later, job_id);
        lemma_accepted_is_the_only_one(later.job(job_id), freelancer);
    }
}

/// After a proposal has been accepted, exactly one proposal of the job
/// carries the acceptance flag, that of the assigned freelancer, right away
/// and after every history that does not ask to reject that proposal.
pub proof fn law_one_accepted_after_acceptance(
    market: MarketView,
    job_id: nat,
    freelancer: Seq<char>,
    history: Seq<Operation>,
)
    requires
        market.wf(),
        market.accept_proposal_verdict(job_id, freelancer) is Ok,
        none_rejects(history, job_id, freelancer),
    ensures
        ({
            let later = market.after_accept_proposal(job_id, freelancer).after_all(history);
            &&& later.has_job(job_id)
            &&& later.job(job_id).has_exactly_one_accepted()
            &&& later.job(job_id).has_accepted_from(freelancer)
            &&& later.job(job_id).freelancer == Some(freelancer)
        }),
{
    let accepted = market.after_accept_proposal(job_id, freelancer);
    lemma_accept_proposal_effect(market, job_id, freelancer);
    lemma_accept_proposal_wf(market, job_id, freelancer);
    let job = accepted.job(job_id);
    let at = choose|i: int|
        {
            &&& 0 <= i < job.proposals.len()
            &&& (#[trigger] job.proposals[i]).accepted
            &&& forall|j: int|
                0 <= j < job.proposals.len() && (#[trigger] job.proposals[j]).accepted ==> j == i
        };
    assert(job.proposals[at].freelancer == freelancer && job.proposals[at].accepted);
    law_accepted_proposal_stays(accepted, history, job_id, freelancer);
}

/// A chat is append-only and belongs to its job for good: once a job has a
/// chat, whatever is done, the job is in the store with a chat between the
/// same two participants, and the messages that were in it are, unchanged
/// and in the same order, the beginning of the messages that are in it.
pub proof fn law_chat_is_append_only(market: MarketView, history: Seq<Operation>, job_id: nat)
    requires
        market.wf(),
        market.has_job(job_id),
        market.job(job_id).chat is Some,
    ensures
        market.after_all(history).has_job(job_id),
        chat_continues(market.job(job_id).chat->0, market.after_all(history).job(job_id).chat),
    decreases history.len(),
{
    lemma_position_valid(market, job_id);
    if history.len() > 0 {
        let rest = history.drop_last();
        let earlier = market.after_all(rest);
        law_chat_is_append_only(market, rest, job_id);
        law_assignment_is_permanent(market, rest, job_id);
        lemma_step_on_job(earlier, history.last(), job_id);
        law_assignment_is_permanent(market, history, job_id);
    }
}

/// A message to a job on which no proposal has been accepted is refused as
/// chat not initialized, whoever sends it and whatever it says, and changes
/// nothing. This holds of a job without a freelancer and after any history
/// that does not ask to accept a proposal on it, as long as the job is in
/// the store.
pub proof fn law_no_chat_before_acceptance(
    market: MarketView,
    job_id: nat,
    history: Seq<Operation>,
    sender: Seq<char>,
    content: Seq<char>,
    timestamp: Option<u64>,
)
    requires
        market.wf(),
        market.has_job(job_id),
        market.job(job_id).freelancer is None,
        none_accepts_on(history, job_id),
        market.after_all(history).has_job(job_id),
    ensures
        market.after_all(history).send_message_verdict(job_id, sender, content) == Err::<
            (),
            MarketError,
        >(MarketError::ChatNotInitialized),
        market.after_all(history).after_send_message(job_id, sender, content, timestamp)
            == market.after_all(history),
{
    law_only_acceptance_assigns(market, history, job_id);
    lemma_history_wf(market, history);
    lemma_position_valid(market.after_all(history), job_id);
}

/// A message to a job with an assigned freelancer from someone who is
/// neither its client nor that freelancer is refused as an authorization
/// error, and the chat stays as it was.
pub proof fn law_outsider_cannot_write(
    market: MarketView,
    job_id: nat,
    sender: Seq<char>,
    content: Seq<char>,
    timestamp: Option<u64>,
)
    requires
        market.wf(),
        market.has_job(job_id),
        market.job(job_id).freelancer is Some,
        !market.job(job_id).is_party(sender),
    ensures
        market.send_message_verdict(job_id, sender, content) == Err::<(), MarketError>(
            MarketError::Authorization,
        ),
        market.after_send_message(job_id, sender, content, timestamp) == market,
{
    lemma_position_valid(market, job_id);
}

/// Completing and disputing are refused as an invalid state on every job
/// that is not in progress, whoever asks.
pub proof fn law_closing_needs_progress(market: MarketView, job_id: nat, requester: Seq<char>)
    requires
        market.has_job(job_id),
        market.job(job_id).status != JobStatus::InProgress,
    ensures
        market.close_job_verdict(job_id, requester) == Err::<(), MarketError>(
            MarketError::InvalidState,
        ),
        market.after_complete_job(job_id, requester) == market,
        market.after_dispute_job(job_id, requester) == market,
{
}

/// A completed job is `Completed` and a disputed job is `Disputed`, and
/// from then on, whatever is done, the job keeps that status and every
/// further completion or dispute is refused as an invalid state.
pub proof fn law_closed_stays_closed(
    market: MarketView,
    job_id: nat,
    requester: Seq<char>,
    history: Seq<Operation>,
    later_requester: Seq<char>,
)
    requires
        market.wf(),
        market.close_job_verdict(job_id, requester) is Ok,
    ensures
        ({
            let completed = market.after_complete_job(job_id, requester);
            let later = completed.after_all(history);
            &&& completed.job(job_id).status == JobStatus::Completed
            &&& later.has_job(job_id)
            &&& later.job(job_id).status == JobStatus::Completed
            &&& later.close_job_verdict(job_id, later_requester) == Err::<(), MarketError>(
                MarketError::InvalidState,
            )
        }),
        ({
            let disputed = market.after_dispute_job(job_id, requester);
            let later = disputed.after_all(history);
            &&& disputed.job(job_id).status == JobStatus::Disputed
            &&& later.has_job(job_id)
            &&& later.job(job_id).status == JobStatus::Disputed
            &&& later.close_job_verdict(job_id, later_requester) == Err::<(), MarketError>(
                MarketError::InvalidState,
            )
        }),
{
    lemma_position_valid(market, job_id);
    lemma_close_job_wf(market, job_id, requester);
    let completed = market.after_complete_job(job_id, requester);
    lemma_with_job_wf(market, job_id, market.job(job_id).with_status(JobStatus::Completed));
    law_assignment_is_permanent(completed, history, job_id);
    let disputed = market.after_dispute_job(job_id, requester);
    lemma_with_job_wf(market, job_id, market.job(job_id).with_status(JobStatus::Disputed));
    law_assignment_is_permanent(disputed, history, job_id);
}

/// A funded job stays funded as long as it is in the store, whatever is
/// done.
pub proof fn law_funded_stays_funded(market: MarketView, history: Seq<Operation>, job_id: nat)
    requires
        market.wf(),
        market.has_job(job_id),
        market.job(job_id).funded,
    ensures
        market.after_all(history).has_job(job_id) ==> market.after_all(history).job(job_id).funded,
    decreases history.len(),
{
    if history.len() > 0 {
        let rest = history.drop_last();
        let earlier = market.after_all(rest);
        law_funded_stays_funded(market, rest, job_id);
        lemma_history_wf(market, rest);
        lemma_ids_below_next(market, job_id);
        if earlier.has_job(job_id) {
            lemma_step_on_job(earlier, history.last(), job_id);
        } else {
            lemma_step_never_revives(earlier, history.last(), job_id);
        }
    }
}

/// Funding succeeds once: after it the job is funded and nothing else of it
/// has changed, and every further funding of that job, whoever asks and
/// whatever was done in between, is refused as already funded as long as
/// the job is in the store.
pub proof fn law_funding_happens_once(
    market: MarketView,
    job_id: nat,
    requester: Seq<char>,
    history: Seq<Operation>,
    later_requester: Seq<char>,
)
    requires
        market.wf(),
        market.fund_job_verdict(job_id, requester) is Ok,
    ensures
        ({
            let funded = market.after_fund_job(job_id, requester);
            let later = funded.after_all(history);
            &&& funded.job(job_id) == market.job(job_id).funded_now()
            &&& funded.fund_job_verdict(job_id, later_requester) == Err::<(), MarketError>(
                MarketError::AlreadyFunded,
            )
            &&& later.has_job(job_id) ==> later.fund_job_verdict(job_id, later_requester) == Err::<
                (),
                MarketError,
            >(MarketError::AlreadyFunded)
        }),
{
    lemma_position_valid(market, job_id);
    lemma_fund_job_wf(market, job_id, requester);
    let funded = market.after_fund_job(job_id, requester);
    lemma_with_job_wf(market, job_id, market.job(job_id).funded_now());
    law_funded_stays_funded(funded, history, job_id);
}

/// A job that was just created is open, has no proposal, no freelancer and
/// no chat, and is not funded.
pub proof fn law_created_job_is_fresh(
    market: MarketView,
    title: Seq<char>,
    description: Seq<char>,
    budget: u64,
    deadline: Seq<char>,
    client: Seq<char>,
)
    requires
        market.wf(),
        market.create_job_verdict(title, description, budget, deadline, client) is Ok,
    ensures
        ({
            let id = market.create_job_verdict(title, description, budget, deadline, client)->Ok_0;
            let job = market.after_create_job(title, description, budget, deadline, client).job(id);
            &&& id == market.next_id
            &&& job == JobView::fresh(id, title, description, budget, deadline, client)
            &&& job.status == JobStatus::Open
            &&& job.proposals.len() == 0
            &&& job.freelancer is None
            &&& job.chat is None
            &&& !job.funded
        }),
{
    lemma_create_job_wf(market, title, description, budget, deadline, client);
}

} // verus!

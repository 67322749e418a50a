//! The marketplace: the one store that holds all jobs and hands out their
//! identifiers, with the operations that clients and freelancers perform on
//! it.
//!
//! Each operation either succeeds and changes the store as its rule says, or
//! is refused with the one error that applies and changes nothing. The
//! contracts state both over the model of the store, `self@`.

use vstd::prelude::*;
use crate::error::MarketError;
use crate::limits::{check_job_fields, check_message_content, check_proposal_fields};
use crate::model::{
    lemma_position_none, lemma_position_of, lemma_proposal_position_none,
    lemma_proposal_position_of, ChatView, JobView, MarketView, MessageView,
};
use crate::records::{
    copy_messages, job_views, message_views, Chat, Job, JobFilter, Message, Proposal,
};
use crate::rules::{
    lemma_accept_proposal_effect, lemma_accept_proposal_wf, lemma_close_job_wf,
    lemma_create_job_wf, lemma_delete_job_wf, lemma_fund_job_wf, lemma_reject_proposal_wf,
    lemma_send_message_wf, lemma_submit_proposal_wf,
};
use crate::status::JobStatus;
use crate::text::same_text;

verus! {

/// The store of all jobs, in the order of their creation, and the generator
/// of their identifiers.
pub struct Marketplace {
    jobs: Vec<Job>,
    next_id: u64,
}

impl View for Marketplace {
    type V = MarketView;

    closed spec fn view(&self) -> MarketView {
        MarketView { jobs: job_views(self.jobs@), next_id: self.next_id as nat }
    }
}

impl Marketplace {
    /// The store keeps the invariants of its model.
    pub open spec fn wf(&self) -> bool {
        self@.wf()
    }

    /// An empty marketplace, whose first job will get the identifier 1.
    pub fn new() -> (market: Marketplace)
        ensures
            market.wf(),
            market@ == MarketView::empty(),
    {
        let market = Marketplace { jobs: Vec::new(), next_id: 1 };
        assert(market@.jobs =~= Seq::<JobView>::empty());
        market
    }

    /// The identifier that the next created job will get.
    pub fn next_id(&self) -> (id: u64)
        ensures
            id as nat == self@.next_id,
    {
        self.next_id
    }

    /// The number of jobs in the store.
    pub fn job_count(&self) -> (count: usize)
        ensures
            count as nat == self@.jobs.len(),
    {
        self.jobs.len()
    }

    /// Finds the position of the job with identifier `job_id`. Identifiers
    /// grow along the store, so the search halves the range at each step.
    fn locate(&self, job_id: u64) -> (found: Option<usize>)
        requires
            self.wf(),
        ensures
            match found {
                Some(at) => self@.position(job_id as nat) == Some(at as int) && at
                    < self.jobs@.len(),
                None => !self@.has_job(job_id as nat),
            },
    {
        let mut low: usize = 0;
        let mut high: usize = self.jobs.len();
        while low < high
            invariant
                self.wf(),
                low <= high <= self.jobs@.len(),
                forall|k: int| 0 <= k < low ==> (#[trigger] self@.jobs[k]).id < job_id,
                forall|k: int| high <= k < self.jobs@.len() ==> (#[trigger] self@.jobs[k]).id > job_id,
            decreases high - low,
        {
            let middle: usize = low + (high - low) / 2;
            let id: u64 = self.jobs[middle].id;
            assert(self@.jobs[middle as int].id == id);
            if id == job_id {
                proof {
                    lemma_position_of(self@, middle as int);
                }
                return Some(middle);
            } else if id < job_id {
                assert forall|k: int| 0 <= k < middle + 1 implies (#[trigger] self@.jobs[k]).id
                    < job_id by {
                    if k < middle {
                        assert(self@.jobs[k].id < self@.jobs[middle as int].id);
                    }
                }
                low = middle + 1;
            } else {
                assert forall|k: int| middle <= k < self.jobs@.len() implies (
                #[trigger] self@.jobs[k]).id > job_id by {
                    if middle < k {
                        assert(self@.jobs[middle as int].id < self@.jobs[k].id);
                    }
                }
                high = middle;
            }
        }
        proof {
            lemma_position_none(self@, job_id as nat);
        }
        None
    }

    /// Posts a job for `client`.
    ///
    /// Succeeds with the new job's identifier when the title has 1 to 100
    /// characters, the description 1 to 1000, the budget is positive, and
    /// the deadline and the client are not empty; is a validation error
    /// otherwise. The new job is open, has no proposal, no freelancer and no
    /// chat, and is not funded. Its identifier is the store's next
    /// identifier, which no job has or ever had, and the next identifier
    /// moves on by one.
    pub fn create_job(
        &mut self,
        title: String,
        description: String,
        budget: u64,
        deadline: String,
        client: String,
    ) -> (result: Result<u64, MarketError>)
        requires
            old(self).wf(),
            old(self)@.next_id < u64::MAX,
        ensures
            final(self).wf(),
            final(self)@ == old(self)@.after_create_job(
                title@,
                description@,
                budget,
                deadline@,
                client@,
            ),
            match result {
                Ok(id) => old(self)@.create_job_verdict(
                    title@,
                    description@,
                    budget,
                    deadline@,
                    client@,
                ) == Ok::<nat, MarketError>(id as nat),
                Err(error) => old(self)@.create_job_verdict(
                    title@,
                    description@,
                    budget,
                    deadline@,
                    client@,
                ) == Err::<nat, MarketError>(error),
            },
            result matches Ok(id) ==> {
                &&& id as nat == old(self)@.next_id
                &&& final(self)@.next_id == id + 1
                &&& !old(self)@.has_job(id as nat)
                &&& final(self)@.has_job(id as nat)
                &&& final(self)@.job(id as nat) == JobView::fresh(
                    id as nat,
                    title@,
                    description@,
                    budget,
                    deadline@,
                    client@,
                )
            },
    {
        proof {
            lemma_create_job_wf(old(self)@, title@, description@, budget, deadline@, client@);
        }
        if !check_job_fields(
            title.as_str(),
            description.as_str(),
            budget,
            deadline.as_str(),
            client.as_str(),
        ) {
            return Err(MarketError::Validation);
        }
        let id: u64 = self.next_id;
        let job = Job {
            id,
            title,
            description,
            budget,
            deadline,
            client,
            freelancer: None,
            proposals: Vec::new(),
            status: JobStatus::Open,
            funded: false,
            chat: None,
        };
        assert(job@ =~= JobView::fresh(
            id as nat,
            title@,
            description@,
            budget,
            deadline@,
            client@,
        ));
        self.jobs.push(job);
        self.next_id = id + 1;
        assert(self@.jobs =~= old(self)@.jobs.push(job@));
        Ok(id)
    }

    /// Marks the job as completed.
    ///
    /// Is refused as not found when the job is absent, as an invalid state
    /// unless the job is in progress, and as an authorization error when the
    /// requester is neither its client nor its assigned freelancer.
    /// Otherwise the job's status becomes `Completed` and nothing else
    /// changes.
    pub fn complete_job(&mut self, job_id: u64, requester: &str) -> (result: Result<
        (),
        MarketError,
    >)
        requires
            old(self).wf(),
        ensures
            final(self).wf(),
            result == old(self)@.close_job_verdict(job_id as nat, requester@),
            final(self)@ == old(self)@.after_complete_job(job_id as nat, requester@),
    {
        proof {
            lemma_close_job_wf(old(self)@, job_id as nat, requester@);
        }
        let at = match self.locate(job_id) {
            Some(at) => at,
            None => {
                return Err(MarketError::NotFound);
            },
        };
        if self.jobs[at].status != JobStatus::InProgress {
            return Err(MarketError::InvalidState);
        }
        if !self.jobs[at].is_party(requester) {
            return Err(MarketError::Authorization);
        }
        self.jobs[at].status = JobStatus::Completed;
        assert(self@.jobs =~= old(self)@.jobs.update(
            at as int,
            old(self)@.jobs[at as int].with_status(JobStatus::Completed),
        ));
        Ok(())
    }

    /// Marks the job as disputed.
    ///
    /// Is refused as not found when the job is absent, as an invalid state
    /// unless the job is in progress, and as an authorization error when the
    /// requester is neither its client nor its assigned freelancer.
    /// Otherwise the job's status becomes `Disputed` and nothing else
    /// changes.
    pub fn dispute_job(&mut self, job_id: u64, requester: &str) -> (result: Result<
        (),
        MarketError,
    >)
        requires
            old(self).wf(),
        ensures
            final(self).wf(),
            result == old(self)@.close_job_verdict(job_id as nat, requester@),
            final(self)@ == old(self)@.after_dispute_job(job_id as nat, requester@),
    {
        proof {
            lemma_close_job_wf(old(self)@, job_id as nat, requester@);
        }
        let at = match self.locate(job_id) {
            Some(at) => at,
            None => {
                return Err(MarketError::NotFound);
            },
        };
        if self.jobs[at].status != JobStatus::InProgress {
            return Err(MarketError::InvalidState);
        }
        if !self.jobs[at].is_party(requester) {
            return Err(MarketError::Authorization);
        }
        self.jobs[at].status = JobStatus::Disputed;
        assert(self@.jobs =~= old(self)@.jobs.update(
            at as int,
            old(self)@.jobs[at as int].with_status(JobStatus::Disputed),
        ));
        Ok(())
    }

    /// Marks the job as funded.
    ///
    /// Is refused as not found when the job is absent, as already funded
    /// when it has been funded before, and as an authorization error when
    /// the requester is not its client. Otherwise the funded flag is set;
    /// the status and everything else stay.
    pub fn fund_job(&mut self, job_id: u64, requester: &str) -> (result: Result<(), MarketError>)
        requires
            old(self).wf(),
        ensures
            final(self).wf(),
            result == old(self)@.fund_job_verdict(job_id as nat, requester@),
            final(self)@ == old(self)@.after_fund_job(job_id as nat, requester@),
    {
        proof {
            lemma_fund_job_wf(old(self)@, job_id as nat, requester@);
        }
        let at = match self.locate(job_id) {
            Some(at) => at,
            None => {
                return Err(MarketError::NotFound);
            },
        };
        if self.jobs[at].funded {
            return Err(MarketError::AlreadyFunded);
        }
        if !same_text(requester, self.jobs[at].client.as_str()) {
            return Err(MarketError::Authorization);
        }
        self.jobs[at].funded = true;
        assert(self@.jobs =~= old(self)@.jobs.update(
            at as int,
            old(self)@.jobs[at as int].funded_now(),
        ));
        Ok(())
    }

    /// Removes the job from the store, with all it owns.
    ///
    /// Is refused as not found when the job is absent, as an authorization
    /// error when the requester is not its client, and as a conflict when a
    /// freelancer is assigned. Otherwise the job is gone, the other jobs
    /// keep their order, and the next identifier stays where it is, so the
    /// identifier of the removed job is never handed out again.
    pub fn delete_job(&mut self, job_id: u64, requester: &str) -> (result: Result<
        (),
        MarketError,
    >)
        requires
            old(self).wf(),
        ensures
            final(self).wf(),
            result == old(self)@.delete_job_verdict(job_id as nat, requester@),
            final(self)@ == old(self)@.after_delete_job(job_id as nat, requester@),
    {
        proof {
            lemma_delete_job_wf(old(self)@, job_id as nat, requester@);
        }
        let at = match self.locate(job_id) {
            Some(at) => at,
            None => {
                return Err(MarketError::NotFound);
            },
        };
        if !same_text(requester, self.jobs[at].client.as_str()) {
            return Err(MarketError::Authorization);
        }
        if self.jobs[at].freelancer.is_some() {
            return Err(MarketError::Conflict);
        }
        self.jobs.remove(at);
        assert(self@.jobs =~= old(self)@.jobs.remove(at as int));
        Ok(())
    }

    /// Records a proposal of `freelancer` on the job.
    ///
    /// Is refused as not found when the job is absent, as an invalid state
    /// when the job is not open, as a duplicate when the freelancer already
    /// has a proposal on it, and as a validation error unless the cover
    /// letter has 1 to 500 characters and the expected budget is positive.
    /// Otherwise the proposal is appended, not accepted, to the job's list,
    /// and no other field of the job changes.
    pub fn submit_proposal(
        &mut self,
        job_id: u64,
        freelancer: String,
        cover_letter: String,
        expected_budget: u64,
    ) -> (result: Result<(), MarketError>)
        requires
            old(self).wf(),
        ensures
            final(self).wf(),
            result == old(self)@.submit_proposal_verdict(
                job_id as nat,
                freelancer@,
                cover_letter@,
                expected_budget,
            ),
            final(self)@ == old(self)@.after_submit_proposal(
                job_id as nat,
                freelancer@,
                cover_letter@,
                expected_budget,
            ),
    {
        proof {
            lemma_submit_proposal_wf(
                old(self)@,
                job_id as nat,
                freelancer@,
                cover_letter@,
                expected_budget,
            );
        }
        let at = match self.locate(job_id) {
            Some(at) => at,
            None => {
                return Err(MarketError::NotFound);
            },
        };
        if self.jobs[at].status != JobStatus::Open {
            return Err(MarketError::InvalidState);
        }
        let earlier = self.jobs[at].find_proposal(freelancer.as_str());
        proof {
            let job = old(self)@.jobs[at as int];
            match earlier {
                Some(found) => {
                    lemma_proposal_position_of(job, found as int);
                },
                None => {
                    lemma_proposal_position_none(job, freelancer@);
                },
            }
        }
        if earlier.is_some() {
            return Err(MarketError::Duplicate);
        }
        if !check_proposal_fields(cover_letter.as_str(), expected_budget) {
            return Err(MarketError::Validation);
        }
        let proposal = Proposal { freelancer, cover_letter, expected_budget, accepted: false };
        self.jobs[at].proposals.push(proposal);
        assert(self@.jobs =~= old(self)@.jobs.update(
            at as int,
            old(self)@.jobs[at as int].with_proposal(proposal@),
        )) by {
            assert(self@.jobs[at as int].proposals =~= old(self)@.jobs[at as int].proposals.push(
                proposal@,
            ));
        }
        Ok(())
    }

    /// Accepts the proposal of `freelancer` on the job.
    ///
    /// Is refused as not found when the job is absent, as a conflict when
    /// the job already has a freelancer, whichever proposal is named, and as
    /// not found when the freelancer has no proposal on the job. Otherwise,
    /// in one step: that proposal gets the acceptance flag, so exactly one
    /// proposal of the job carries it; the freelancer is assigned; the job
    /// is in progress; and the job's chat exists, empty, with the client and
    /// the freelancer as its participants.
    pub fn accept_proposal(&mut self, job_id: u64, freelancer: &str) -> (result: Result<
        (),
        MarketError,
    >)
        requires
            old(self).wf(),
        ensures
            final(self).wf(),
            result == old(self)@.accept_proposal_verdict(job_id as nat, freelancer@),
            final(self)@ == old(self)@.after_accept_proposal(job_id as nat, freelancer@),
            result is Ok ==> {
                let job = final(self)@.job(job_id as nat);
                &&& final(self)@.has_job(job_id as nat)
                &&& job.has_exactly_one_accepted()
                &&& forall|i: int|
                    0 <= i < job.proposals.len() && (#[trigger] job.proposals[i]).accepted
                        ==> job.proposals[i].freelancer == freelancer@
                &&& job.freelancer == Some(freelancer@)
                &&& job.status == JobStatus::InProgress
                &&& job.chat == Some(
                    ChatView {
                        client: old(self)@.job(job_id as nat).client,
                        freelancer: freelancer@,
                        messages: Seq::<MessageView>::empty(),
                    },
                )
            },
    {
        proof {
            lemma_accept_proposal_wf(old(self)@, job_id as nat, freelancer@);
            if old(self)@.accept_proposal_verdict(job_id as nat, freelancer@) is Ok {
                lemma_accept_proposal_effect(old(self)@, job_id as nat, freelancer@);
            }
        }
        let at = match self.locate(job_id) {
            Some(at) => at,
            None => {
                return Err(MarketError::NotFound);
            },
        };
        if self.jobs[at].freelancer.is_some() {
            return Err(MarketError::Conflict);
        }
        let named = self.jobs[at].find_proposal(freelancer);
        proof {
            let job = old(self)@.jobs[at as int];
            match named {
                Some(found) => {
                    lemma_proposal_position_of(job, found as int);
                },
                None => {
                    lemma_proposal_position_none(job, freelancer@);
                },
            }
        }
        let chosen = match named {
            Some(chosen) => chosen,
            None => {
                return Err(MarketError::NotFound);
            },
        };
        let assigned: String = self.jobs[at].proposals[chosen].freelancer.clone();
        let chat = Chat {
            client: self.jobs[at].client.clone(),
            freelancer: assigned.clone(),
            messages: Vec::new(),
        };
        self.jobs[at].proposals[chosen].accepted = true;
        self.jobs[at].freelancer = Some(assigned);
        self.jobs[at].status = JobStatus::InProgress;
        self.jobs[at].chat = Some(chat);
        assert(self@.jobs =~= old(self)@.jobs.update(
            at as int,
            old(self)@.jobs[at as int].accepting(freelancer@),
        )) by {
            let before = old(self)@.jobs[at as int];
            let after = self@.jobs[at as int];
            assert(after.proposals =~= before.accepting(freelancer@).proposals);
            assert(after.chat->0.messages =~= Seq::<MessageView>::empty());
            assert(after =~= before.accepting(freelancer@));
        }
        Ok(())
    }

    /// Takes the proposal of `freelancer` off the job.
    ///
    /// Is refused as not found when the job is absent or the freelancer has
    /// no proposal on it. Otherwise that proposal leaves the list; the other
    /// proposals keep their order, and the job's status and every other
    /// field stay.
    pub fn reject_proposal(&mut self, job_id: u64, freelancer: &str) -> (result: Result<
        (),
        MarketError,
    >)
        requires
            old(self).wf(),
        ensures
            final(self).wf(),
            result == old(self)@.reject_proposal_verdict(job_id as nat, freelancer@),
            final(self)@ == old(self)@.after_reject_proposal(job_id as nat, freelancer@),
    {
        proof {
            lemma_reject_proposal_wf(old(self)@, job_id as nat, freelancer@);
        }
        let at = match self.locate(job_id) {
            Some(at) => at,
            None => {
                return Err(MarketError::NotFound);
            },
        };
        let named = self.jobs[at].find_proposal(freelancer);
        proof {
            let job = old(self)@.jobs[at as int];
            match named {
                Some(found) => {
                    lemma_proposal_position_of(job, found as int);
                },
                None => {
                    lemma_proposal_position_none(job, freelancer@);
                },
            }
        }
        let chosen = match named {
            Some(chosen) => chosen,
            None => {
                return Err(MarketError::NotFound);
            },
        };
        self.jobs[at].proposals.remove(chosen);
        assert(self@.jobs =~= old(self)@.jobs.update(
            at as int,
            old(self)@.jobs[at as int].without_proposal(freelancer@),
        )) by {
            assert(self@.jobs[at as int].proposals =~= old(self)@.jobs[at as int].proposals.remove(
                chosen as int,
            ));
        }
        Ok(())
    }

    /// Appends a message of `sender` to the job's chat.
    ///
    /// Is refused as not found when the job is absent, as chat not
    /// initialized when no proposal has been accepted on the job yet, as an
    /// authorization error when the sender is not one of the chat's two
    /// participants, and as a validation error unless the content has 1 to
    /// 1000 characters. Otherwise the message goes to the end of the chat.
    /// It carries `timestamp` as given, whatever the earlier messages carry;
    /// without one it carries the chat's own tick, the number of messages
    /// that were there before it.
    pub fn send_message(
        &mut self,
        job_id: u64,
        sender: String,
        content: String,
        timestamp: Option<u64>,
    ) -> (result: Result<(), MarketError>)
        requires
            old(self).wf(),
        ensures
            final(self).wf(),
            result == old(self)@.send_message_verdict(job_id as nat, sender@, content@),
            final(self)@ == old(self)@.after_send_message(
                job_id as nat,
                sender@,
                content@,
                timestamp,
            ),
    {
        proof {
            lemma_send_message_wf(old(self)@, job_id as nat, sender@, content@, timestamp);
        }
        let at = match self.locate(job_id) {
            Some(at) => at,
            None => {
                return Err(MarketError::NotFound);
            },
        };
        let stamp: u64 = match &self.jobs[at].chat {
            None => {
                return Err(MarketError::ChatNotInitialized);
            },
            Some(chat) => {
                if !chat.is_participant(sender.as_str()) {
                    return Err(MarketError::Authorization);
                }
                if !check_message_content(content.as_str()) {
                    return Err(MarketError::Validation);
                }
                match timestamp {
                    Some(given) => given,
                    None => chat.messages.len() as u64,
                }
            },
        };
        let message = Message { sender, content, timestamp: stamp };
        match &mut self.jobs[at].chat {
            Some(chat) => {
                chat.messages.push(message);
            },
            None => {},
        }
        assert(self@.jobs =~= old(self)@.jobs.update(
            at as int,
            old(self)@.jobs[at as int].with_message(message@),
        )) by {
            assert(self@.jobs[at as int].chat->0.messages =~= old(
                self,
            )@.jobs[at as int].chat->0.messages.push(message@));
        }
        Ok(())
    }

    /// The whole conversation of the job, oldest message first, as a copy.
    ///
    /// Is not found when the job is absent or has no chat yet.
    pub fn get_chat(&self, job_id: u64) -> (result: Result<Vec<Message>, MarketError>)
        requires
            self.wf(),
        ensures
            match result {
                Ok(messages) => {
                    &&& self@.has_job(job_id as nat)
                    &&& self@.job(job_id as nat).chat is Some
                    &&& message_views(messages@) == self@.job(job_id as nat).chat->0.messages
                },
                Err(error) => {
                    &&& error == MarketError::NotFound
                    &&& !self@.has_job(job_id as nat) || self@.job(job_id as nat).chat is None
                },
            },
    {
        let at = match self.locate(job_id) {
            Some(at) => at,
            None => {
                return Err(MarketError::NotFound);
            },
        };
        match &self.jobs[at].chat {
            Some(chat) => Ok(copy_messages(&chat.messages)),
            None => Err(MarketError::NotFound),
        }
    }

    /// The job with identifier `job_id`, as a copy.
    ///
    /// Is not found when the store holds no such job.
    pub fn get_job(&self, job_id: u64) -> (result: Result<Job, MarketError>)
        requires
            self.wf(),
        ensures
            match result {
                Ok(job) => self@.has_job(job_id as nat) && job@ == self@.job(job_id as nat),
                Err(error) => error == MarketError::NotFound && !self@.has_job(job_id as nat),
            },
    {
        match self.locate(job_id) {
            Some(at) => Ok(self.jobs[at].clone()),
            None => Err(MarketError::NotFound),
        }
    }

    /// The jobs that `filter` admits, in the order of their creation, as
    /// copies.
    pub fn list_jobs(&self, filter: &JobFilter) -> (listed: Vec<Job>)
        ensures
            job_views(listed@) == self@.jobs.filter(|job: JobView| filter.admits(job)),
    {
        let ghost wanted = |job: JobView| filter.admits(job);
        let mut listed: Vec<Job> = Vec::new();
        let mut at: usize = 0;
        assert(self@.jobs.take(0) =~= Seq::<JobView>::empty());
        assert(job_views(listed@) =~= Seq::<JobView>::empty());
        proof {
            reveal(Seq::filter);
        }
        while at < self.jobs.len()
            invariant
                at <= self.jobs@.len(),
                wanted == |job: JobView| filter.admits(job),
                job_views(listed@) == self@.jobs.take(at as int).filter(wanted),
            decreases self.jobs@.len() - at,
        {
            let ghost before = job_views(listed@);
            proof {
                assert(self@.jobs.take(at + 1) =~= self@.jobs.take(at as int).push(
                    self@.jobs[at as int],
                ));
                self@.jobs.take(at as int).lemma_filter_push(self@.jobs[at as int], wanted);
            }
            if filter.accepts(&self.jobs[at]) {
                listed.push(self.jobs[at].clone());
                assert(job_views(listed@) =~= before.push(self@.jobs[at as int]));
            }
            at += 1;
        }
        assert(self@.jobs.take(at as int) =~= self@.jobs);
        listed
    }
}

} // verus!

//! The records that the marketplace stores and hands out: proposals,
//! messages, chats and jobs, each with the model value it stands for, and
//! the filter by which jobs are listed.
//!
//! A record handed out by the marketplace is a copy: changing it changes
//! nothing in the store.

use vstd::prelude::*;
use crate::model::{ChatView, JobView, MessageView, ProposalView};
use crate::status::JobStatus;
use crate::text::same_text;

verus! {

/// A freelancer's bid on a job.
#[derive(Debug, PartialEq, Eq)]
pub struct Proposal {
    pub freelancer: String,
    pub cover_letter: String,
    pub expected_budget: u64,
    pub accepted: bool,
}

/// One message of a chat.
#[derive(Debug, PartialEq, Eq)]
pub struct Message {
    pub sender: String,
    pub content: String,
    pub timestamp: u64,
}

/// The conversation of a job.
#[derive(Debug, PartialEq, Eq)]
pub struct Chat {
    pub client: String,
    pub freelancer: String,
    pub messages: Vec<Message>,
}

/// A job with everything it owns.
#[derive(Debug, PartialEq, Eq)]
pub struct Job {
    pub id: u64,
    pub title: String,
    pub description: String,
    pub budget: u64,
    pub deadline: String,
    pub client: String,
    pub freelancer: Option<String>,
    pub proposals: Vec<Proposal>,
    pub status: JobStatus,
    pub funded: bool,
    pub chat: Option<Chat>,
}

/// Which jobs a listing asks for. A condition that is absent admits every
/// job; the conditions that are present must all hold.
#[derive(Debug, PartialEq, Eq)]
pub struct JobFilter {
    pub status: Option<JobStatus>,
    pub client: Option<String>,
    pub freelancer: Option<String>,
}

/// The model values of a sequence of proposals.
pub open spec fn proposal_views(proposals: Seq<Proposal>) -> Seq<ProposalView> {
    proposals.map_values(|p: Proposal| p@)
}

/// The model values of a sequence of messages.
pub open spec fn message_views(messages: Seq<Message>) -> Seq<MessageView> {
    messages.map_values(|m: Message| m@)
}

/// The model values of a sequence of jobs.
pub open spec fn job_views(jobs: Seq<Job>) -> Seq<JobView> {
    jobs.map_values(|j: Job| j@)
}

/// The model value of a text that may be absent.
pub open spec fn optional_text(text: Option<String>) -> Option<Seq<char>> {
    match text {
        Some(t) => Some(t@),
        None => None,
    }
}

impl View for Proposal {
    type V = ProposalView;

    open spec fn view(&self) -> ProposalView {
        ProposalView {
            freelancer: self.freelancer@,
            cover_letter: self.cover_letter@,
            expected_budget: self.expected_budget,
            accepted: self.accepted,
        }
    }
}

impl View for Message {
    type V = MessageView;

    open spec fn view(&self) -> MessageView {
        MessageView {
            sender: self.sender@,
            content: self.content@,
            timestamp: self.timestamp as nat,
        }
    }
}

impl View for Chat {
    type V = ChatView;

    open spec fn view(&self) -> ChatView {
        ChatView {
            client: self.client@,
            freelancer: self.freelancer@,
            messages: message_views(self.messages@),
        }
    }
}

impl View for Job {
    type V = JobView;

    open spec fn view(&self) -> JobView {
        JobView {
            id: self.id as nat,
            title: self.title@,
            description: self.description@,
            budget: self.budget,
            deadline: self.deadline@,
            client: self.client@,
            freelancer: optional_text(self.freelancer),
            proposals: proposal_views(self.proposals@),
            status: self.status,
            funded: self.funded,
            chat: match self.chat {
                Some(chat) => Some(chat@),
                None => None,
            },
        }
    }
}

impl Clone for Proposal {
    fn clone(&self) -> (copy: Self)
        ensures
            copy@ == self@,
    {
        Proposal {
            freelancer: self.freelancer.clone(),
            cover_letter: self.cover_letter.clone(),
            expected_budget: self.expected_budget,
            accepted: self.accepted,
        }
    }
}

impl Clone for Message {
    fn clone(&self) -> (copy: Self)
        ensures
            copy@ == self@,
    {
        Message {
            sender: self.sender.clone(),
            content: self.content.clone(),
            timestamp: self.timestamp,
        }
    }
}

/// Copies a list of proposals, one by one.
pub fn copy_proposals(proposals: &Vec<Proposal>) -> (copy: Vec<Proposal>)
    ensures
        proposal_views(copy@) == proposal_views(proposals@),
{
    let mut copy: Vec<Proposal> = Vec::new();
    let mut at: usize = 0;
    while at < proposals.len()
        invariant
            at <= proposals@.len(),
            copy@.len() == at,
            forall|k: int| 0 <= k < at ==> (#[trigger] copy@[k])@ == proposals@[k]@,
        decreases proposals@.len() - at,
    {
        copy.push(proposals[at].clone());
        at += 1;
    }
    assert(proposal_views(copy@) =~= proposal_views(proposals@));
    copy
}

/// Copies a list of messages, one by one.
pub fn copy_messages(messages: &Vec<Message>) -> (copy: Vec<Message>)
    ensures
        message_views(copy@) == message_views(messages@),
{
    let mut copy: Vec<Message> = Vec::new();
    let mut at: usize = 0;
    while at < messages.len()
        invariant
            at <= messages@.len(),
            copy@.len() == at,
            forall|k: int| 0 <= k < at ==> (#[trigger] copy@[k])@ == messages@[k]@,
        decreases messages@.len() - at,
    {
        copy.push(messages[at].clone());
        at += 1;
    }
    assert(message_views(copy@) =~= message_views(messages@));
    copy
}

impl Chat {
    /// Tells whether `who` is one of the two participants.
    pub fn is_participant(&self, who: &str) -> (answer: bool)
        ensures
            answer == self@.is_participant(who@),
    {
        same_text(who, self.client.as_str()) || same_text(who, self.freelancer.as_str())
    }

    /// The two participants: the client first, then the freelancer.
    pub fn participants(&self) -> (both: Vec<String>)
        ensures
            both@.len() == 2,
            both@[0]@ == self@.client,
            both@[1]@ == self@.freelancer,
    {
        let mut both: Vec<String> = Vec::new();
        both.push(self.client.clone());
        both.push(self.freelancer.clone());
        both
    }
}

impl Clone for Chat {
    fn clone(&self) -> (copy: Self)
        ensures
            copy@ == self@,
    {
        Chat {
            client: self.client.clone(),
            freelancer: self.freelancer.clone(),
            messages: copy_messages(&self.messages),
        }
    }
}

impl Job {
    /// Tells whether `who` is the client or the assigned freelancer.
    pub fn is_party(&self, who: &str) -> (answer: bool)
        ensures
            answer == self@.is_party(who@),
    {
        if same_text(who, self.client.as_str()) {
            true
        } else {
            match &self.freelancer {
                Some(assigned) => same_text(who, assigned.as_str()),
                None => false,
            }
        }
    }

    /// Finds the position of the proposal of `freelancer` in the list: the
    /// first proposal that names that freelancer, if any does.
    pub fn find_proposal(&self, freelancer: &str) -> (found: Option<usize>)
        ensures
            match found {
                Some(at) => at < self.proposals@.len() && self.proposals@[at as int]@.freelancer
                    == freelancer@ && forall|k: int|
                    0 <= k < at ==> (#[trigger] self.proposals@[k])@.freelancer != freelancer@,
                None => forall|k: int|
                    0 <= k < self.proposals@.len() ==> (#[trigger] self.proposals@[k])@.freelancer
                        != freelancer@,
            },
    {
        let mut at: usize = 0;
        while at < self.proposals.len()
            invariant
                at <= self.proposals@.len(),
                forall|k: int|
                    0 <= k < at ==> (#[trigger] self.proposals@[k])@.freelancer != freelancer@,
            decreases self.proposals@.len() - at,
        {
            if same_text(self.proposals[at].freelancer.as_str(), freelancer) {
                return Some(at);
            }
            at += 1;
        }
        None
    }
}

impl Clone for Job {
    fn clone(&self) -> (copy: Self)
        ensures
            copy@ == self@,
    {
        let freelancer = match &self.freelancer {
            Some(assigned) => Some(assigned.clone()),
            None => None,
        };
        let chat = match &self.chat {
            Some(chat) => Some(chat.clone()),
            None => None,
        };
        Job {
            id: self.id,
            title: self.title.clone(),
            description: self.description.clone(),
            budget: self.budget,
            deadline: self.deadline.clone(),
            client: self.client.clone(),
            freelancer,
            proposals: copy_proposals(&self.proposals),
            status: self.status,
            funded: self.funded,
            chat,
        }
    }
}

impl JobFilter {
    /// The filter that admits every job.
    pub fn any() -> (filter: JobFilter)
        ensures
            forall|job: JobView| filter.admits(job),
            filter.status is None,
            filter.client is None,
            filter.freelancer is None,
    {
        JobFilter { status: None, client: None, freelancer: None }
    }

    /// Tells whether the filter admits `job`: its status is the one asked
    /// for, its client is the one asked for, and its assigned freelancer is
    /// the one asked for, as far as each is asked for.
    pub open spec fn admits(&self, job: JobView) -> bool {
        &&& (self.status matches Some(status) ==> job.status == status)
        &&& (self.client matches Some(client) ==> job.client == client@)
        &&& (self.freelancer matches Some(freelancer) ==> job.freelancer == Some(freelancer@))
    }

    /// Decides whether the filter admits `job`.
    pub fn accepts(&self, job: &Job) -> (answer: bool)
        ensures
            answer == self.admits(job@),
    {
        let status_ok = match &self.status {
            Some(status) => job.status == *status,
            None => true,
        };
        let client_ok = match &self.client {
            Some(client) => same_text(job.client.as_str(), client.as_str()),
            None => true,
        };
        let freelancer_ok = match &self.freelancer {
            Some(freelancer) => match &job.freelancer {
                Some(assigned) => same_text(assigned.as_str(), freelancer.as_str()),
                None => false,
            },
            None => true,
        };
        status_ok && client_ok && freelancer_ok
    }
}

} // verus!

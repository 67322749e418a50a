use freelance_backend::error::MarketError;
use freelance_backend::market::Marketplace;
use freelance_backend::records::JobFilter;
use freelance_backend::status::JobStatus;

fn text(s: &str) -> String {
    s.to_string()
}

fn post(market: &mut Marketplace, title: &str, client: &str) -> u64 {
    market
        .create_job(text(title), text("A description"), 500, text("2030-01-01"), text(client))
        .unwrap()
}

fn bid(market: &mut Marketplace, job_id: u64, freelancer: &str) -> Result<(), MarketError> {
    market.submit_proposal(job_id, text(freelancer), text("I can do it"), 450)
}

#[test]
fn scenario_job_runs_from_creation_to_completion() {
    let mut market = Marketplace::new();
    let id = market
        .create_job(text("Build site"), text("A site"), 500, text("soon"), text("alice"))
        .unwrap();
    assert_eq!(id, 1);
    assert_eq!(market.submit_proposal(1, text("bob"), text("I can do it"), 450), Ok(()));
    assert_eq!(market.accept_proposal(1, "bob"), Ok(()));
    let job = market.get_job(1).unwrap();
    assert_eq!(job.status, JobStatus::InProgress);
    assert_eq!(job.freelancer, Some(text("bob")));
    let chat = job.chat.unwrap();
    assert_eq!(chat.participants(), vec![text("alice"), text("bob")]);
    assert_eq!(market.send_message(1, text("bob"), text("Starting now"), None), Ok(()));
    let messages = market.get_chat(1).unwrap();
    assert_eq!(messages.len(), 1);
    assert_eq!(messages[0].sender, "bob");
    assert_eq!(messages[0].content, "Starting now");
    assert_eq!(market.complete_job(1, "alice"), Ok(()));
    assert_eq!(market.get_job(1).unwrap().status, JobStatus::Completed);
    assert_eq!(market.complete_job(1, "alice"), Err(MarketError::InvalidState));
}

#[test]
fn scenario_empty_cover_letter_is_a_validation_error() {
    let mut market = Marketplace::new();
    let id = post(&mut market, "Build site", "alice");
    assert_eq!(bid(&mut market, id, "carol"), Ok(()));
    let before = market.get_job(id).unwrap();
    assert_eq!(
        market.submit_proposal(id, text("bob"), text(""), 450),
        Err(MarketError::Validation)
    );
    let after = market.get_job(id).unwrap();
    assert_eq!(after.proposals, before.proposals);
    assert_eq!(after, before);
}

#[test]
fn new_marketplace_is_empty_and_starts_at_one() {
    let market = Marketplace::new();
    assert_eq!(market.next_id(), 1);
    assert_eq!(market.job_count(), 0);
    assert!(market.list_jobs(&JobFilter::any()).is_empty());
    assert_eq!(market.get_job(1), Err(MarketError::NotFound));
}

#[test]
fn created_job_is_open_and_bare() {
    let mut market = Marketplace::new();
    let id = market
        .create_job(text("Logo"), text("Draw a logo"), 120, text("friday"), text("alice"))
        .unwrap();
    let job = market.get_job(id).unwrap();
    assert_eq!(job.id, 1);
    assert_eq!(job.title, "Logo");
    assert_eq!(job.description, "Draw a logo");
    assert_eq!(job.budget, 120);
    assert_eq!(job.deadline, "friday");
    assert_eq!(job.client, "alice");
    assert_eq!(job.freelancer, None);
    assert!(job.proposals.is_empty());
    assert_eq!(job.status, JobStatus::Open);
    assert!(!job.funded);
    assert!(job.chat.is_none());
    assert_eq!(market.next_id(), 2);
    assert_eq!(market.job_count(), 1);
}

#[test]
fn identifiers_increase_by_one_and_survive_deletions() {
    let mut market = Marketplace::new();
    let first = post(&mut market, "One", "alice");
    let second = post(&mut market, "Two", "alice");
    assert_eq!((first, second), (1, 2));
    assert_eq!(market.delete_job(second, "alice"), Ok(()));
    assert_eq!(market.delete_job(first, "alice"), Ok(()));
    assert_eq!(market.job_count(), 0);
    let third = post(&mut market, "Three", "alice");
    assert_eq!(third, 3);
    assert_eq!(market.get_job(1), Err(MarketError::NotFound));
    assert_eq!(market.get_job(2), Err(MarketError::NotFound));
    assert_eq!(market.get_job(3).unwrap().title, "Three");
}

#[test]
fn refused_creation_uses_no_identifier() {
    let mut market = Marketplace::new();
    let refused = market.create_job(text(""), text("d"), 1, text("x"), text("alice"));
    assert_eq!(refused, Err(MarketError::Validation));
    assert_eq!(market.next_id(), 1);
    assert_eq!(market.job_count(), 0);
    assert_eq!(post(&mut market, "One", "alice"), 1);
}

#[test]
fn create_job_checks_every_field() {
    let mut market = Marketplace::new();
    let ok = |m: &mut Marketplace, t: String, d: String, b: u64, dl: &str, c: &str| {
        m.create_job(t, d, b, text(dl), text(c))
    };
    let invalid = Err(MarketError::Validation);
    assert_eq!(ok(&mut market, text(""), text("d"), 1, "x", "alice"), invalid);
    assert_eq!(ok(&mut market, "t".repeat(101), text("d"), 1, "x", "alice"), invalid);
    assert_eq!(ok(&mut market, text("t"), text(""), 1, "x", "alice"), invalid);
    assert_eq!(ok(&mut market, text("t"), "d".repeat(1001), 1, "x", "alice"), invalid);
    assert_eq!(ok(&mut market, text("t"), text("d"), 0, "x", "alice"), invalid);
    assert_eq!(ok(&mut market, text("t"), text("d"), 1, "", "alice"), invalid);
    assert_eq!(ok(&mut market, text("t"), text("d"), 1, "x", ""), invalid);
    assert_eq!(market.job_count(), 0);
    assert_eq!(ok(&mut market, "t".repeat(100), "d".repeat(1000), 1, "x", "a"), Ok(1));
    assert_eq!(ok(&mut market, text("t"), text("d"), u64::MAX, "x", "a"), Ok(2));
}

#[test]
fn lengths_are_counted_in_characters() {
    let mut market = Marketplace::new();
    let title = "\u{e9}".repeat(100);
    assert_eq!(title.len(), 200);
    assert_eq!(
        market.create_job(title, text("d"), 1, text("x"), text("alice")),
        Ok(1)
    );
    let long = "\u{e9}".repeat(101);
    assert_eq!(
        market.create_job(long, text("d"), 1, text("x"), text("alice")),
        Err(MarketError::Validation)
    );
}

#[test]
fn submit_proposal_appends_an_unaccepted_proposal() {
    let mut market = Marketplace::new();
    let id = post(&mut market, "Build site", "alice");
    let before = market.get_job(id).unwrap();
    assert_eq!(market.submit_proposal(id, text("bob"), text("Me"), 450), Ok(()));
    assert_eq!(market.submit_proposal(id, text("carol"), text("No, me"), 400), Ok(()));
    let job = market.get_job(id).unwrap();
    assert_eq!(job.proposals.len(), 2);
    assert_eq!(job.proposals[0].freelancer, "bob");
    assert_eq!(job.proposals[0].cover_letter, "Me");
    assert_eq!(job.proposals[0].expected_budget, 450);
    assert!(!job.proposals[0].accepted);
    assert_eq!(job.proposals[1].freelancer, "carol");
    assert_eq!(job.proposals[1].expected_budget, 400);
    assert_eq!(job.status, before.status);
    assert_eq!(job.freelancer, before.freelancer);
    assert_eq!(job.title, before.title);
    assert_eq!(job.funded, before.funded);
    assert_eq!(job.chat, before.chat);
}

#[test]
fn submit_proposal_refusals_come_in_order() {
    let mut market = Marketplace::new();
    let id = post(&mut market, "Build site", "alice");
    assert_eq!(bid(&mut market, 99, "bob"), Err(MarketError::NotFound));
    assert_eq!(
        market.submit_proposal(99, text("bob"), text(""), 0),
        Err(MarketError::NotFound)
    );
    assert_eq!(bid(&mut market, id, "bob"), Ok(()));
    assert_eq!(
        market.submit_proposal(id, text("bob"), text(""), 0),
        Err(MarketError::Duplicate)
    );
    assert_eq!(
        market.submit_proposal(id, text("carol"), text("x"), 0),
        Err(MarketError::Validation)
    );
    assert_eq!(
        market.submit_proposal(id, text("carol"), "x".repeat(501), 1),
        Err(MarketError::Validation)
    );
    assert_eq!(
        market.submit_proposal(id, text("carol"), "x".repeat(500), 1),
        Ok(())
    );
    assert_eq!(market.accept_proposal(id, "bob"), Ok(()));
    assert_eq!(bid(&mut market, id, "dave"), Err(MarketError::InvalidState));
    assert_eq!(bid(&mut market, id, "bob"), Err(MarketError::InvalidState));
    assert_eq!(
        market.submit_proposal(id, text("dave"), text(""), 0),
        Err(MarketError::InvalidState)
    );
}

#[test]
fn second_proposal_of_a_freelancer_is_a_duplicate_whatever_happens_between() {
    let mut market = Marketplace::new();
    let id = post(&mut market, "Build site", "alice");
    let other = post(&mut market, "Other", "erin");
    assert_eq!(bid(&mut market, id, "bob"), Ok(()));
    assert_eq!(bid(&mut market, id, "carol"), Ok(()));
    assert_eq!(bid(&mut market, other, "bob"), Ok(()));
    assert_eq!(market.accept_proposal(other, "bob"), Ok(()));
    assert_eq!(market.fund_job(id, "alice"), Ok(()));
    assert_eq!(market.reject_proposal(id, "carol"), Ok(()));
    assert_eq!(market.complete_job(other, "erin"), Ok(()));
    assert_eq!(post(&mut market, "Third", "alice"), 3);
    assert_eq!(market.delete_job(3, "alice"), Ok(()));
    let before = market.get_job(id).unwrap();
    assert_eq!(
        market.submit_proposal(id, text("bob"), text("Again"), 1),
        Err(MarketError::Duplicate)
    );
    assert_eq!(market.get_job(id).unwrap(), before);
}

#[test]
fn rejected_freelancer_may_submit_again() {
    let mut market = Marketplace::new();
    let id = post(&mut market, "Build site", "alice");
    assert_eq!(bid(&mut market, id, "bob"), Ok(()));
    assert_eq!(market.reject_proposal(id, "bob"), Ok(()));
    assert_eq!(bid(&mut market, id, "bob"), Ok(()));
    assert_eq!(market.get_job(id).unwrap().proposals.len(), 1);
}

#[test]
fn acceptance_assigns_starts_and_opens_the_chat_at_once() {
    let mut market = Marketplace::new();
    let id = post(&mut market, "Build site", "alice");
    assert_eq!(bid(&mut market, id, "bob"), Ok(()));
    assert_eq!(bid(&mut market, id, "carol"), Ok(()));
    assert_eq!(bid(&mut market, id, "dave"), Ok(()));
    assert_eq!(market.accept_proposal(id, "carol"), Ok(()));
    let job = market.get_job(id).unwrap();
    let accepted: Vec<&str> = job
        .proposals
        .iter()
        .filter(|p| p.accepted)
        .map(|p| p.freelancer.as_str())
        .collect();
    assert_eq!(accepted, vec!["carol"]);
    assert_eq!(job.proposals.len(), 3);
    assert_eq!(job.proposals[0].freelancer, "bob");
    assert_eq!(job.proposals[1].cover_letter, "I can do it");
    assert_eq!(job.proposals[1].expected_budget, 450);
    assert_eq!(job.proposals[2].freelancer, "dave");
    assert_eq!(job.freelancer, Some(text("carol")));
    assert_eq!(job.status, JobStatus::InProgress);
    let chat = job.chat.unwrap();
    assert_eq!(chat.client, "alice");
    assert_eq!(chat.freelancer, "carol");
    assert!(chat.messages.is_empty());
    assert!(chat.is_participant("alice"));
    assert!(chat.is_participant("carol"));
    assert!(!chat.is_participant("bob"));
    assert_eq!(market.get_chat(id), Ok(vec![]));
}

#[test]
fn accept_proposal_refusals() {
    let mut market = Marketplace::new();
    assert_eq!(market.accept_proposal(1, "bob"), Err(MarketError::NotFound));
    let id = post(&mut market, "Build site", "alice");
    assert_eq!(market.accept_proposal(id, "bob"), Err(MarketError::NotFound));
    assert_eq!(bid(&mut market, id, "bob"), Ok(()));
    assert_eq!(market.accept_proposal(id, "carol"), Err(MarketError::NotFound));
    let job = market.get_job(id).unwrap();
    assert_eq!(job.status, JobStatus::Open);
    assert_eq!(job.freelancer, None);
}

#[test]
fn second_acceptance_is_a_conflict_and_changes_nothing() {
    let mut market = Marketplace::new();
    let id = post(&mut market, "Build site", "alice");
    assert_eq!(bid(&mut market, id, "bob"), Ok(()));
    assert_eq!(bid(&mut market, id, "carol"), Ok(()));
    assert_eq!(market.accept_proposal(id, "bob"), Ok(()));
    let before = market.get_job(id).unwrap();
    assert_eq!(market.accept_proposal(id, "carol"), Err(MarketError::Conflict));
    assert_eq!(market.accept_proposal(id, "bob"), Err(MarketError::Conflict));
    assert_eq!(market.accept_proposal(id, "nobody"), Err(MarketError::Conflict));
    assert_eq!(market.get_job(id).unwrap(), before);
    assert_eq!(market.send_message(id, text("bob"), text("hi"), None), Ok(()));
    assert_eq!(market.complete_job(id, "bob"), Ok(()));
    assert_eq!(market.accept_proposal(id, "carol"), Err(MarketError::Conflict));
    assert_eq!(market.get_job(id).unwrap().freelancer, Some(text("bob")));
}

#[test]
fn reject_proposal_removes_only_the_named_proposal() {
    let mut market = Marketplace::new();
    let id = post(&mut market, "Build site", "alice");
    assert_eq!(market.reject_proposal(99, "bob"), Err(MarketError::NotFound));
    assert_eq!(market.reject_proposal(id, "bob"), Err(MarketError::NotFound));
    assert_eq!(bid(&mut market, id, "bob"), Ok(()));
    assert_eq!(bid(&mut market, id, "carol"), Ok(()));
    assert_eq!(bid(&mut market, id, "dave"), Ok(()));
    assert_eq!(market.reject_proposal(id, "carol"), Ok(()));
    let job = market.get_job(id).unwrap();
    let left: Vec<&str> = job.proposals.iter().map(|p| p.freelancer.as_str()).collect();
    assert_eq!(left, vec!["bob", "dave"]);
    assert_eq!(job.status, JobStatus::Open);
    assert_eq!(market.reject_proposal(id, "carol"), Err(MarketError::NotFound));
}

#[test]
fn rejecting_the_accepted_proposal_leaves_the_assignment() {
    let mut market = Marketplace::new();
    let id = post(&mut market, "Build site", "alice");
    assert_eq!(bid(&mut market, id, "bob"), Ok(()));
    assert_eq!(market.accept_proposal(id, "bob"), Ok(()));
    assert_eq!(market.reject_proposal(id, "bob"), Ok(()));
    let job = market.get_job(id).unwrap();
    assert!(job.proposals.is_empty());
    assert_eq!(job.status, JobStatus::InProgress);
    assert_eq!(job.freelancer, Some(text("bob")));
    assert!(job.chat.is_some());
    assert_eq!(market.accept_proposal(id, "bob"), Err(MarketError::Conflict));
}

#[test]
fn message_before_acceptance_is_chat_not_initialized() {
    let mut market = Marketplace::new();
    let id = post(&mut market, "Build site", "alice");
    let refused = Err(MarketError::ChatNotInitialized);
    assert_eq!(market.send_message(id, text("alice"), text("hello"), None), refused);
    assert_eq!(bid(&mut market, id, "bob"), Ok(()));
    assert_eq!(market.fund_job(id, "alice"), Ok(()));
    assert_eq!(market.send_message(id, text("bob"), text("hello"), Some(5)), refused);
    assert_eq!(market.send_message(id, text("mallory"), text(""), None), refused);
    assert_eq!(market.get_chat(id), Err(MarketError::NotFound));
    assert!(market.get_job(id).unwrap().chat.is_none());
    assert_eq!(
        market.send_message(99, text("alice"), text("hello"), None),
        Err(MarketError::NotFound)
    );
}

#[test]
fn message_from_an_outsider_is_an_authorization_error() {
    let mut market = Marketplace::new();
    let id = post(&mut market, "Build site", "alice");
    assert_eq!(bid(&mut market, id, "bob"), Ok(()));
    assert_eq!(bid(&mut market, id, "carol"), Ok(()));
    assert_eq!(market.accept_proposal(id, "bob"), Ok(()));
    assert_eq!(market.send_message(id, text("alice"), text("welcome"), None), Ok(()));
    let refused = Err(MarketError::Authorization);
    assert_eq!(market.send_message(id, text("carol"), text("hello"), None), refused);
    assert_eq!(market.send_message(id, text("mallory"), text("hello"), None), refused);
    assert_eq!(market.send_message(id, text(""), text("hello"), None), refused);
    assert_eq!(market.send_message(id, text("mallory"), text(""), None), refused);
    let messages = market.get_chat(id).unwrap();
    assert_eq!(messages.len(), 1);
    assert_eq!(messages[0].sender, "alice");
}

#[test]
fn message_content_must_have_between_one_and_a_thousand_characters() {
    let mut market = Marketplace::new();
    let id = post(&mut market, "Build site", "alice");
    assert_eq!(bid(&mut market, id, "bob"), Ok(()));
    assert_eq!(market.accept_proposal(id, "bob"), Ok(()));
    let invalid = Err(MarketError::Validation);
    assert_eq!(market.send_message(id, text("bob"), text(""), None), invalid);
    assert_eq!(market.send_message(id, text("bob"), "x".repeat(1001), None), invalid);
    assert!(market.get_chat(id).unwrap().is_empty());
    assert_eq!(market.send_message(id, text("bob"), "x".repeat(1000), None), Ok(()));
    assert_eq!(market.send_message(id, text("alice"), text("x"), None), Ok(()));
    assert_eq!(market.get_chat(id).unwrap().len(), 2);
}

#[test]
fn messages_keep_their_order_and_their_timestamps() {
    let mut market = Marketplace::new();
    let id = post(&mut market, "Build site", "alice");
    assert_eq!(bid(&mut market, id, "bob"), Ok(()));
    assert_eq!(market.accept_proposal(id, "bob"), Ok(()));
    assert_eq!(market.send_message(id, text("bob"), text("first"), None), Ok(()));
    assert_eq!(market.send_message(id, text("alice"), text("second"), Some(900)), Ok(()));
    assert_eq!(market.send_message(id, text("bob"), text("third"), Some(7)), Ok(()));
    assert_eq!(market.send_message(id, text("alice"), text("fourth"), None), Ok(()));
    let messages = market.get_chat(id).unwrap();
    let seen: Vec<(&str, &str, u64)> = messages
        .iter()
        .map(|m| (m.sender.as_str(), m.content.as_str(), m.timestamp))
        .collect();
    assert_eq!(
        seen,
        vec![
            ("bob", "first", 0),
            ("alice", "second", 900),
            ("bob", "third", 7),
            ("alice", "fourth", 3),
        ]
    );
    assert_eq!(market.get_job(id).unwrap().chat.unwrap().messages, messages);
}

#[test]
fn messages_go_on_after_the_job_is_closed() {
    let mut market = Marketplace::new();
    let id = post(&mut market, "Build site", "alice");
    assert_eq!(bid(&mut market, id, "bob"), Ok(()));
    assert_eq!(market.accept_proposal(id, "bob"), Ok(()));
    assert_eq!(market.dispute_job(id, "bob"), Ok(()));
    assert_eq!(market.send_message(id, text("alice"), text("why?"), None), Ok(()));
    assert_eq!(market.get_chat(id).unwrap().len(), 1);
}

#[test]
fn completing_and_disputing_need_a_job_in_progress() {
    let mut market = Marketplace::new();
    assert_eq!(market.complete_job(1, "alice"), Err(MarketError::NotFound));
    assert_eq!(market.dispute_job(1, "alice"), Err(MarketError::NotFound));
    let id = post(&mut market, "Build site", "alice");
    let refused = Err(MarketError::InvalidState);
    assert_eq!(market.complete_job(id, "alice"), refused);
    assert_eq!(market.dispute_job(id, "alice"), refused);
    assert_eq!(market.complete_job(id, "mallory"), refused);
    assert_eq!(market.dispute_job(id, "mallory"), refused);
    assert_eq!(market.get_job(id).unwrap().status, JobStatus::Open);
    assert_eq!(bid(&mut market, id, "bob"), Ok(()));
    assert_eq!(market.accept_proposal(id, "bob"), Ok(()));
    assert_eq!(market.complete_job(id, "mallory"), Err(MarketError::Authorization));
    assert_eq!(market.dispute_job(id, "mallory"), Err(MarketError::Authorization));
    assert_eq!(market.get_job(id).unwrap().status, JobStatus::InProgress);
    assert_eq!(market.complete_job(id, "bob"), Ok(()));
    assert_eq!(market.get_job(id).unwrap().status, JobStatus::Completed);
    assert_eq!(market.complete_job(id, "bob"), refused);
    assert_eq!(market.complete_job(id, "alice"), refused);
    assert_eq!(market.dispute_job(id, "alice"), refused);
    assert_eq!(market.complete_job(id, "mallory"), refused);
    assert_eq!(market.get_job(id).unwrap().status, JobStatus::Completed);
}

#[test]
fn disputed_job_stays_disputed() {
    let mut market = Marketplace::new();
    let id = post(&mut market, "Build site", "alice");
    assert_eq!(bid(&mut market, id, "bob"), Ok(()));
    assert_eq!(market.accept_proposal(id, "bob"), Ok(()));
    let before = market.get_job(id).unwrap();
    assert_eq!(market.dispute_job(id, "alice"), Ok(()));
    let job = market.get_job(id).unwrap();
    assert_eq!(job.status, JobStatus::Disputed);
    assert_eq!(job.freelancer, before.freelancer);
    assert_eq!(job.proposals, before.proposals);
    assert_eq!(job.chat, before.chat);
    assert_eq!(market.dispute_job(id, "alice"), Err(MarketError::InvalidState));
    assert_eq!(market.complete_job(id, "bob"), Err(MarketError::InvalidState));
    assert_eq!(market.fund_job(id, "alice"), Ok(()));
    assert_eq!(market.get_job(id).unwrap().status, JobStatus::Disputed);
}

#[test]
fn funding_succeeds_exactly_once() {
    let mut market = Marketplace::new();
    assert_eq!(market.fund_job(1, "alice"), Err(MarketError::NotFound));
    let id = post(&mut market, "Build site", "alice");
    assert_eq!(market.fund_job(id, "bob"), Err(MarketError::Authorization));
    assert!(!market.get_job(id).unwrap().funded);
    let before = market.get_job(id).unwrap();
    assert_eq!(market.fund_job(id, "alice"), Ok(()));
    let job = market.get_job(id).unwrap();
    assert!(job.funded);
    assert_eq!(job.status, before.status);
    assert_eq!(job.proposals, before.proposals);
    assert_eq!(market.fund_job(id, "alice"), Err(MarketError::AlreadyFunded));
    assert_eq!(market.fund_job(id, "bob"), Err(MarketError::AlreadyFunded));
    assert_eq!(bid(&mut market, id, "bob"), Ok(()));
    assert_eq!(market.accept_proposal(id, "bob"), Ok(()));
    assert_eq!(market.complete_job(id, "alice"), Ok(()));
    assert_eq!(market.fund_job(id, "alice"), Err(MarketError::AlreadyFunded));
    assert!(market.get_job(id).unwrap().funded);
}

#[test]
fn delete_job_needs_the_client_and_no_freelancer() {
    let mut market = Marketplace::new();
    assert_eq!(market.delete_job(1, "alice"), Err(MarketError::NotFound));
    let id = post(&mut market, "Build site", "alice");
    let kept = post(&mut market, "Keep", "erin");
    assert_eq!(market.delete_job(id, "bob"), Err(MarketError::Authorization));
    assert_eq!(bid(&mut market, id, "bob"), Ok(()));
    assert_eq!(market.accept_proposal(id, "bob"), Ok(()));
    assert_eq!(market.delete_job(id, "bob"), Err(MarketError::Authorization));
    assert_eq!(market.delete_job(id, "alice"), Err(MarketError::Conflict));
    assert_eq!(market.job_count(), 2);
    assert_eq!(bid(&mut market, kept, "bob"), Ok(()));
    assert_eq!(market.delete_job(kept, "erin"), Ok(()));
    assert_eq!(market.get_job(kept), Err(MarketError::NotFound));
    assert_eq!(market.get_chat(kept), Err(MarketError::NotFound));
    assert_eq!(market.job_count(), 1);
    assert_eq!(market.next_id(), 3);
    assert_eq!(market.get_job(id).unwrap().client, "alice");
    assert_eq!(market.delete_job(kept, "erin"), Err(MarketError::NotFound));
}

#[test]
fn jobs_are_found_among_many_after_deletions() {
    let mut market = Marketplace::new();
    for n in 1..=40u64 {
        assert_eq!(post(&mut market, &format!("Job {}", n), "alice"), n);
    }
    for n in (1..=40u64).filter(|n| n % 3 == 0) {
        assert_eq!(market.delete_job(n, "alice"), Ok(()));
    }
    for n in 1..=41u64 {
        let found = market.get_job(n);
        if n % 3 == 0 || n == 41 {
            assert_eq!(found, Err(MarketError::NotFound));
        } else {
            let job = found.unwrap();
            assert_eq!(job.id, n);
            assert_eq!(job.title, format!("Job {}", n));
        }
    }
    assert_eq!(market.get_job(0), Err(MarketError::NotFound));
    assert_eq!(market.get_job(u64::MAX), Err(MarketError::NotFound));
    let listed: Vec<u64> = market.list_jobs(&JobFilter::any()).iter().map(|j| j.id).collect();
    let expected: Vec<u64> = (1..=40u64).filter(|n| n % 3 != 0).collect();
    assert_eq!(listed, expected);
}

#[test]
fn list_jobs_filters_by_status_client_and_freelancer() {
    let mut market = Marketplace::new();
    let a = post(&mut market, "A", "alice");
    let b = post(&mut market, "B", "erin");
    let c = post(&mut market, "C", "alice");
    let d = post(&mut market, "D", "alice");
    assert_eq!(bid(&mut market, a, "bob"), Ok(()));
    assert_eq!(market.accept_proposal(a, "bob"), Ok(()));
    assert_eq!(bid(&mut market, b, "bob"), Ok(()));
    assert_eq!(market.accept_proposal(b, "bob"), Ok(()));
    assert_eq!(market.complete_job(b, "erin"), Ok(()));
    assert_eq!(bid(&mut market, c, "carol"), Ok(()));
    assert_eq!(market.accept_proposal(c, "carol"), Ok(()));
    let ids = |m: &Marketplace, f: JobFilter| -> Vec<u64> {
        m.list_jobs(&f).iter().map(|j| j.id).collect()
    };
    let by = |status: Option<JobStatus>, client: Option<&str>, freelancer: Option<&str>| {
        JobFilter {
            status,
            client: client.map(|c| c.to_string()),
            freelancer: freelancer.map(|f| f.to_string()),
        }
    };
    assert_eq!(ids(&market, JobFilter::any()), vec![a, b, c, d]);
    assert_eq!(ids(&market, by(Some(JobStatus::InProgress), None, None)), vec![a, c]);
    assert_eq!(ids(&market, by(Some(JobStatus::Open), None, None)), vec![d]);
    assert_eq!(ids(&market, by(Some(JobStatus::Completed), None, None)), vec![b]);
    assert_eq!(ids(&market, by(Some(JobStatus::Cancelled), None, None)), Vec::<u64>::new());
    assert_eq!(ids(&market, by(Some(JobStatus::Disputed), None, None)), Vec::<u64>::new());
    assert_eq!(ids(&market, by(None, Some("alice"), None)), vec![a, c, d]);
    assert_eq!(ids(&market, by(None, Some("erin"), None)), vec![b]);
    assert_eq!(ids(&market, by(None, None, Some("bob"))), vec![a, b]);
    assert_eq!(ids(&market, by(None, Some("alice"), Some("bob"))), vec![a]);
    assert_eq!(
        ids(&market, by(Some(JobStatus::InProgress), Some("alice"), Some("carol"))),
        vec![c]
    );
    assert_eq!(
        ids(&market, by(Some(JobStatus::Completed), Some("alice"), None)),
        Vec::<u64>::new()
    );
    assert_eq!(ids(&market, by(None, None, Some("alice"))), Vec::<u64>::new());
}

#[test]
fn handed_out_records_are_copies() {
    let mut market = Marketplace::new();
    let id = post(&mut market, "Build site", "alice");
    assert_eq!(bid(&mut market, id, "bob"), Ok(()));
    let mut job = market.get_job(id).unwrap();
    job.status = JobStatus::Cancelled;
    job.title.push_str(" changed");
    job.proposals.clear();
    job.funded = true;
    let mut listed = market.list_jobs(&JobFilter::any());
    listed[0].client = text("mallory");
    let stored = market.get_job(id).unwrap();
    assert_eq!(stored.status, JobStatus::Open);
    assert_eq!(stored.title, "Build site");
    assert_eq!(stored.proposals.len(), 1);
    assert!(!stored.funded);
    assert_eq!(stored.client, "alice");
    assert_eq!(stored.clone(), stored);
}

#[test]
fn no_operation_leads_to_cancelled() {
    let mut market = Marketplace::new();
    let a = post(&mut market, "A", "alice");
    let b = post(&mut market, "B", "alice");
    let c = post(&mut market, "C", "alice");
    assert_eq!(bid(&mut market, a, "bob"), Ok(()));
    assert_eq!(market.accept_proposal(a, "bob"), Ok(()));
    assert_eq!(market.complete_job(a, "alice"), Ok(()));
    assert_eq!(bid(&mut market, b, "bob"), Ok(()));
    assert_eq!(market.accept_proposal(b, "bob"), Ok(()));
    assert_eq!(market.dispute_job(b, "bob"), Ok(()));
    assert_eq!(market.delete_job(c, "alice"), Ok(()));
    for job in market.list_jobs(&JobFilter::any()) {
        assert_ne!(job.status, JobStatus::Cancelled);
    }
}

#[test]
fn job_tells_its_parties_and_finds_its_proposals() {
    let mut market = Marketplace::new();
    let id = post(&mut market, "Build site", "alice");
    assert_eq!(bid(&mut market, id, "bob"), Ok(()));
    assert_eq!(bid(&mut market, id, "carol"), Ok(()));
    let open = market.get_job(id).unwrap();
    assert!(open.is_party("alice"));
    assert!(!open.is_party("bob"));
    assert_eq!(open.find_proposal("bob"), Some(0));
    assert_eq!(open.find_proposal("carol"), Some(1));
    assert_eq!(open.find_proposal("dave"), None);
    assert_eq!(market.accept_proposal(id, "carol"), Ok(()));
    let running = market.get_job(id).unwrap();
    assert!(running.is_party("alice"));
    assert!(running.is_party("carol"));
    assert!(!running.is_party("bob"));
}

#[test]
fn chat_only_grows_whatever_is_done() {
    let mut market = Marketplace::new();
    let id = post(&mut market, "Build site", "alice");
    assert_eq!(bid(&mut market, id, "bob"), Ok(()));
    assert_eq!(bid(&mut market, id, "carol"), Ok(()));
    assert_eq!(market.accept_proposal(id, "bob"), Ok(()));
    assert_eq!(market.send_message(id, text("bob"), text("one"), None), Ok(()));
    assert_eq!(market.send_message(id, text("alice"), text("two"), Some(40)), Ok(()));
    let earlier = market.get_chat(id).unwrap();
    assert_eq!(market.reject_proposal(id, "carol"), Ok(()));
    assert_eq!(market.fund_job(id, "alice"), Ok(()));
    assert_eq!(market.send_message(id, text("mallory"), text("three"), None), Err(MarketError::Authorization));
    assert_eq!(market.send_message(id, text("bob"), text("three"), None), Ok(()));
    assert_eq!(market.delete_job(id, "alice"), Err(MarketError::Conflict));
    assert_eq!(market.complete_job(id, "alice"), Ok(()));
    assert_eq!(market.send_message(id, text("alice"), text("four"), None), Ok(()));
    let later = market.get_chat(id).unwrap();
    assert_eq!(later.len(), 4);
    assert_eq!(later[..2], earlier[..]);
    let chat = market.get_job(id).unwrap().chat.unwrap();
    assert_eq!(chat.participants(), vec![text("alice"), text("bob")]);
}

#[test]
fn accepted_proposal_stays_the_only_accepted_one() {
    let mut market = Marketplace::new();
    let id = post(&mut market, "Build site", "alice");
    assert_eq!(bid(&mut market, id, "bob"), Ok(()));
    assert_eq!(bid(&mut market, id, "carol"), Ok(()));
    assert_eq!(bid(&mut market, id, "dave"), Ok(()));
    assert_eq!(market.accept_proposal(id, "carol"), Ok(()));
    assert_eq!(market.reject_proposal(id, "bob"), Ok(()));
    assert_eq!(market.accept_proposal(id, "dave"), Err(MarketError::Conflict));
    assert_eq!(market.send_message(id, text("carol"), text("hi"), None), Ok(()));
    assert_eq!(market.dispute_job(id, "carol"), Ok(()));
    let job = market.get_job(id).unwrap();
    let flags: Vec<(&str, bool)> =
        job.proposals.iter().map(|p| (p.freelancer.as_str(), p.accepted)).collect();
    assert_eq!(flags, vec![("carol", true), ("dave", false)]);
    assert_eq!(job.freelancer, Some(text("carol")));
}

#[test]
fn funding_a_deleted_job_finds_nothing() {
    let mut market = Marketplace::new();
    let id = post(&mut market, "Build site", "alice");
    assert_eq!(market.fund_job(id, "alice"), Ok(()));
    assert_eq!(market.delete_job(id, "alice"), Ok(()));
    assert_eq!(market.fund_job(id, "alice"), Err(MarketError::NotFound));
    assert_eq!(post(&mut market, "Again", "alice"), 2);
    assert!(!market.get_job(2).unwrap().funded);
}

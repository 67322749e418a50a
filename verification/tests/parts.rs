use freelance_backend::decimal::decimal;
use freelance_backend::error::MarketError;
use freelance_backend::events::{EventLog, SecurityEvent, MAX_EVENTS, SEVERE_ABOVE};
use freelance_backend::limits::{
    check_job_fields, check_message_content, check_proposal_fields, check_text_within,
    MAX_COVER_LETTER_CHARS, MAX_DESCRIPTION_CHARS, MAX_MESSAGE_CHARS, MAX_TITLE_CHARS,
};
use freelance_backend::queries::{QueryStats, ADVICE_EVERY};
use freelance_backend::records::{copy_messages, copy_proposals, Job, JobFilter, Message, Proposal};
use freelance_backend::status::JobStatus;
use freelance_backend::text::same_text;
use freelance_backend::transfer::{
    get_supported_chains, log_flagged_transaction, CrossChainTransfer, FLAGGED_SEVERITY,
    TRANSFER_SEVERITY,
};

fn transfer() -> CrossChainTransfer {
    CrossChainTransfer {
        from_chain: "Bitcoin".to_string(),
        to_chain: "Ethereum".to_string(),
        amount: 250,
        token_type: "ckBTC".to_string(),
        ai_approved: true,
    }
}

#[test]
fn every_error_has_its_message() {
    let all = [
        (MarketError::Validation, "a field is empty, too long, or not positive"),
        (MarketError::NotFound, "no such job or proposal"),
        (MarketError::InvalidState, "the job's status does not allow this"),
        (MarketError::Conflict, "the job already has a freelancer"),
        (MarketError::Duplicate, "this freelancer already has a proposal on the job"),
        (MarketError::Authorization, "the requester may not do this"),
        (MarketError::AlreadyFunded, "the job is already funded"),
        (MarketError::ChatNotInitialized, "the job has no chat yet"),
    ];
    for (error, message) in all {
        assert_eq!(error.message(), message);
    }
}

#[test]
fn terminal_statuses_are_the_three_final_ones() {
    assert!(!JobStatus::Open.is_terminal());
    assert!(!JobStatus::InProgress.is_terminal());
    assert!(JobStatus::Completed.is_terminal());
    assert!(JobStatus::Cancelled.is_terminal());
    assert!(JobStatus::Disputed.is_terminal());
}

#[test]
fn limits_are_the_documented_ones() {
    assert_eq!(MAX_TITLE_CHARS, 100);
    assert_eq!(MAX_DESCRIPTION_CHARS, 1000);
    assert_eq!(MAX_COVER_LETTER_CHARS, 500);
    assert_eq!(MAX_MESSAGE_CHARS, 1000);
    assert_eq!(MAX_EVENTS, 100);
    assert_eq!(SEVERE_ABOVE, 7);
    assert_eq!(ADVICE_EVERY, 50);
    assert_eq!(TRANSFER_SEVERITY, 3);
    assert_eq!(FLAGGED_SEVERITY, 9);
}

#[test]
fn text_bounds_count_characters() {
    assert!(!check_text_within("", 5));
    assert!(check_text_within("a", 5));
    assert!(check_text_within("abcde", 5));
    assert!(!check_text_within("abcdef", 5));
    assert!(check_text_within("\u{4e16}\u{754c}\u{4e16}\u{754c}\u{4e16}", 5));
    assert!(!check_text_within("a", 0));
}

#[test]
fn field_checks_follow_the_bounds() {
    assert!(check_job_fields("t", "d", 1, "x", "c"));
    assert!(!check_job_fields("", "d", 1, "x", "c"));
    assert!(!check_job_fields("t", "", 1, "x", "c"));
    assert!(!check_job_fields("t", "d", 0, "x", "c"));
    assert!(!check_job_fields("t", "d", 1, "", "c"));
    assert!(!check_job_fields("t", "d", 1, "x", ""));
    assert!(check_job_fields(&"t".repeat(100), &"d".repeat(1000), 1, "x", "c"));
    assert!(!check_job_fields(&"t".repeat(101), "d", 1, "x", "c"));
    assert!(!check_job_fields("t", &"d".repeat(1001), 1, "x", "c"));
    assert!(check_proposal_fields("x", 1));
    assert!(check_proposal_fields(&"x".repeat(500), u64::MAX));
    assert!(!check_proposal_fields(&"x".repeat(501), 1));
    assert!(!check_proposal_fields("", 1));
    assert!(!check_proposal_fields("x", 0));
    assert!(check_message_content("x"));
    assert!(check_message_content(&"x".repeat(1000)));
    assert!(!check_message_content(&"x".repeat(1001)));
    assert!(!check_message_content(""));
}

#[test]
fn same_text_compares_characters() {
    assert!(same_text("", ""));
    assert!(same_text("alice", "alice"));
    assert!(!same_text("alice", "alicf"));
    assert!(!same_text("alice", "alic"));
    assert!(!same_text("alice", "Alice"));
    assert!(!same_text("", "a"));
    assert!(same_text("na\u{ef}ve \u{1f600}", "na\u{ef}ve \u{1f600}"));
    assert!(!same_text("na\u{ef}ve", "naive"));
    assert!(!same_text("e\u{301}", "\u{e9}"));
}

#[test]
fn decimal_writes_numbers_as_std_does() {
    assert_eq!(decimal(0), "0");
    assert_eq!(decimal(7), "7");
    assert_eq!(decimal(10), "10");
    assert_eq!(decimal(1234567890), "1234567890");
    assert_eq!(decimal(1000000), "1000000");
    assert_eq!(decimal(u64::MAX), "18446744073709551615");
    for n in [9u64, 11, 99, 100, 101, 5050, 4294967296, u64::MAX - 1] {
        assert_eq!(decimal(n), n.to_string());
    }
}

#[test]
fn copies_of_records_equal_what_was_copied() {
    let proposals = vec![
        Proposal {
            freelancer: "bob".to_string(),
            cover_letter: "Me".to_string(),
            expected_budget: 4,
            accepted: false,
        },
        Proposal {
            freelancer: "carol".to_string(),
            cover_letter: "No, me".to_string(),
            expected_budget: 5,
            accepted: true,
        },
    ];
    assert_eq!(copy_proposals(&proposals), proposals);
    assert_eq!(copy_proposals(&Vec::new()), Vec::<Proposal>::new());
    assert_eq!(proposals[1].clone(), proposals[1]);
    let messages = vec![
        Message { sender: "bob".to_string(), content: "hi".to_string(), timestamp: 3 },
        Message { sender: "alice".to_string(), content: "ho".to_string(), timestamp: 1 },
    ];
    assert_eq!(copy_messages(&messages), messages);
    assert_eq!(messages[0].clone(), messages[0]);
}

#[test]
fn filter_admits_by_every_condition_that_is_present() {
    let job = Job {
        id: 4,
        title: "t".to_string(),
        description: "d".to_string(),
        budget: 1,
        deadline: "x".to_string(),
        client: "alice".to_string(),
        freelancer: Some("bob".to_string()),
        proposals: Vec::new(),
        status: JobStatus::InProgress,
        funded: false,
        chat: None,
    };
    let by = |status: Option<JobStatus>, client: Option<&str>, freelancer: Option<&str>| {
        JobFilter {
            status,
            client: client.map(|c| c.to_string()),
            freelancer: freelancer.map(|f| f.to_string()),
        }
    };
    assert!(JobFilter::any().accepts(&job));
    assert_eq!(JobFilter::any(), by(None, None, None));
    assert!(by(Some(JobStatus::InProgress), Some("alice"), Some("bob")).accepts(&job));
    assert!(!by(Some(JobStatus::Open), Some("alice"), Some("bob")).accepts(&job));
    assert!(!by(Some(JobStatus::InProgress), Some("erin"), Some("bob")).accepts(&job));
    assert!(!by(Some(JobStatus::InProgress), Some("alice"), Some("carol")).accepts(&job));
    assert!(by(None, None, Some("bob")).accepts(&job));
    let unassigned = Job { freelancer: None, status: JobStatus::Open, ..job.clone() };
    assert!(!by(None, None, Some("bob")).accepts(&unassigned));
    assert!(by(None, Some("alice"), None).accepts(&unassigned));
}

#[test]
fn event_log_keeps_events_in_order() {
    let mut log = EventLog::new();
    assert_eq!(log.len(), 0);
    assert!(log.get_security_events().is_empty());
    log.log_security_event("LOGIN", 2, 10, "alice".to_string());
    log.log_security_event("HIGH_RISK_TX", 9, 20, "pool".to_string());
    assert_eq!(log.len(), 2);
    let events = log.get_security_events();
    assert_eq!(
        events,
        vec![
            SecurityEvent {
                event_type: "LOGIN".to_string(),
                severity: 2,
                timestamp: 10,
                details: "alice".to_string(),
            },
            SecurityEvent {
                event_type: "HIGH_RISK_TX".to_string(),
                severity: 9,
                timestamp: 20,
                details: "pool".to_string(),
            },
        ]
    );
    assert_eq!(events[0].clone(), events[0]);
}

#[test]
fn event_log_drops_the_oldest_beyond_a_hundred() {
    let mut log = EventLog::new();
    for n in 0..100u64 {
        log.log_security_event("E", 1, n, format!("event {}", n));
    }
    assert_eq!(log.len(), 100);
    assert_eq!(log.get_security_events()[0].timestamp, 0);
    log.log_security_event("E", 1, 100, "event 100".to_string());
    assert_eq!(log.len(), 100);
    let events = log.get_security_events();
    assert_eq!(events[0].timestamp, 1);
    assert_eq!(events[0].details, "event 1");
    assert_eq!(events[99].timestamp, 100);
    for n in 101..250u64 {
        log.log_security_event("E", 1, n, String::new());
    }
    let stamps: Vec<u64> = log.get_security_events().iter().map(|e| e.timestamp).collect();
    let expected: Vec<u64> = (150..250u64).collect();
    assert_eq!(stamps, expected);
}

#[test]
fn severe_events_are_those_above_seven() {
    let mut log = EventLog::new();
    assert_eq!(log.severe_events(), 0);
    for severity in [0u8, 7, 8, 9, 3, 255, 7, 8] {
        log.log_security_event("E", severity, 1, String::new());
    }
    assert_eq!(log.severe_events(), 4);
    for _ in 0..100 {
        log.log_security_event("E", 1, 1, String::new());
    }
    assert_eq!(log.severe_events(), 0);
    for _ in 0..150 {
        log.log_security_event("E", 200, 1, String::new());
    }
    assert_eq!(log.severe_events(), 100);
}

#[test]
fn transfer_names_are_built_from_its_chains() {
    let transfer = transfer();
    assert_eq!(transfer.pool_id(), "Bitcoin_Ethereum");
    assert_eq!(transfer.transaction_id(1700000000), "tx_Bitcoin_Ethereum_1700000000");
    assert_eq!(transfer.transaction_id(0), "tx_Bitcoin_Ethereum_0");
    assert_eq!(transfer.details(), "Bitcoin\u{2192}Ethereum 250 ckBTC");
    let bare = CrossChainTransfer {
        from_chain: String::new(),
        to_chain: String::new(),
        amount: 0,
        token_type: String::new(),
        ai_approved: false,
    };
    assert_eq!(bare.pool_id(), "_");
    assert_eq!(bare.transaction_id(u64::MAX), "tx___18446744073709551615");
    assert_eq!(bare.details(), "\u{2192} 0 ");
}

#[test]
fn performed_transfer_is_logged() {
    let mut log = EventLog::new();
    transfer().log_to(&mut log, 77);
    assert_eq!(
        log.get_security_events(),
        vec![SecurityEvent {
            event_type: "CROSS_CHAIN_TX".to_string(),
            severity: 3,
            timestamp: 77,
            details: "Bitcoin\u{2192}Ethereum 250 ckBTC".to_string(),
        }]
    );
    assert_eq!(log.severe_events(), 0);
}

#[test]
fn flagged_transaction_is_logged_as_severe() {
    let mut log = EventLog::new();
    log_flagged_transaction(&mut log, "sonic_ckBTC_ckETH", 900000, 5);
    assert_eq!(
        log.get_security_events(),
        vec![SecurityEvent {
            event_type: "HIGH_RISK_TX".to_string(),
            severity: 9,
            timestamp: 5,
            details: "Pool sonic_ckBTC_ckETH tx 900000 flagged".to_string(),
        }]
    );
    assert_eq!(log.severe_events(), 1);
}

#[test]
fn supported_chains_are_the_four() {
    assert_eq!(get_supported_chains(), vec!["Bitcoin", "Ethereum", "ICP", "Sonic"]);
}

#[test]
fn advice_comes_with_every_fiftieth_query() {
    let mut stats = QueryStats::new();
    assert_eq!(stats.query_count, 0);
    assert!(stats.optimization_suggestions.is_empty());
    for _ in 0..49 {
        stats.record_query();
    }
    assert_eq!(stats.query_count, 49);
    assert!(stats.optimization_suggestions.is_empty());
    stats.record_query();
    assert_eq!(stats.query_count, 50);
    assert_eq!(
        stats.optimization_suggestions,
        vec!["Add index on pool_id", "Enable result caching for queries"]
    );
    for _ in 0..50 {
        stats.record_query();
    }
    assert_eq!(stats.query_count, 100);
    assert_eq!(
        stats.optimization_suggestions,
        vec![
            "Add index on pool_id",
            "Enable result caching for queries",
            "Add index on pool_id",
            "Enable result caching for queries",
        ]
    );
    stats.record_query();
    assert_eq!(stats.optimization_suggestions.len(), 4);
}

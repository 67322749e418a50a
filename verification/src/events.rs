//! The security event log: a bounded record of what happened, newest last.
//! When the log is full, the oldest event makes room for the newest.

use vstd::prelude::*;
use std::collections::VecDeque;

verus! {

/// The most events the log keeps.
pub const MAX_EVENTS: usize = 100;

/// An event counts as severe when its severity is above this mark.
pub const SEVERE_ABOVE: u8 = 7;

/// Something that happened and was worth recording.
#[derive(Debug, PartialEq, Eq)]
pub struct SecurityEvent {
    pub event_type: String,
    pub severity: u8,
    pub timestamp: u64,
    pub details: String,
}

/// A security event as a value of sequences and numbers.
#[verifier::ext_equal]
pub struct SecurityEventView {
    pub event_type: Seq<char>,
    pub severity: u8,
    pub timestamp: u64,
    pub details: Seq<char>,
}

impl View for SecurityEvent {
    type V = SecurityEventView;

    open spec fn view(&self) -> SecurityEventView {
        SecurityEventView {
            event_type: self.event_type@,
            severity: self.severity,
            timestamp: self.timestamp,
            details: self.details@,
        }
    }
}

impl Clone for SecurityEvent {
    fn clone(&self) -> (copy: Self)
        ensures
            copy@ == self@,
    {
        SecurityEvent {
            event_type: self.event_type.clone(),
            severity: self.severity,
            timestamp: self.timestamp,
            details: self.details.clone(),
        }
    }
}

/// The model values of a sequence of events.
pub open spec fn event_views(events: Seq<SecurityEvent>) -> Seq<SecurityEventView> {
    events.map_values(|e: SecurityEvent| e@)
}

/// The newest `limit` events of a sequence, or all of them where there are
/// no more than that.
pub open spec fn newest(events: Seq<SecurityEventView>, limit: nat) -> Seq<SecurityEventView> {
    if events.len() <= limit {
        events
    } else {
        events.subrange(events.len() - limit, events.len() as int)
    }
}

/// How many events of a sequence are severe.
pub open spec fn severe_count(events: Seq<SecurityEventView>) -> nat
    decreases events.len(),
{
    if events.len() == 0 {
        0
    } else {
        severe_count(events.drop_last()) + if events.last().severity > SEVERE_ABOVE {
            1nat
        } else {
            0nat
        }
    }
}

/// No more events are severe than there are events.
pub proof fn lemma_severe_count_bounded(events: Seq<SecurityEventView>)
    ensures
        severe_count(events) <= events.len(),
    decreases events.len(),
{
    if events.len() > 0 {
        lemma_severe_count_bounded(events.drop_last());
    }
}

/// The bounded log of security events, oldest first.
pub struct EventLog {
    events: VecDeque<SecurityEvent>,
}

impl View for EventLog {
    type V = Seq<SecurityEventView>;

    closed spec fn view(&self) -> Seq<SecurityEventView> {
        event_views(self.events@)
    }
}

impl EventLog {
    /// The log never holds more than `MAX_EVENTS` events.
    pub open spec fn wf(&self) -> bool {
        self@.len() <= MAX_EVENTS
    }

    /// An empty log.
    pub fn new() -> (log: EventLog)
        ensures
            log.wf(),
            log@ == Seq::<SecurityEventView>::empty(),
    {
        let log = EventLog { events: VecDeque::new() };
        assert(log@ =~= Seq::<SecurityEventView>::empty());
        log
    }

    /// The number of events in the log.
    pub fn len(&self) -> (count: usize)
        ensures
            count == self@.len(),
    {
        self.events.len()
    }

    /// Records an event that happened at `timestamp`.
    ///
    /// The event goes to the end of the log. Where that makes the log longer
    /// than `MAX_EVENTS`, the oldest event is dropped, so the log holds the
    /// newest `MAX_EVENTS` events in the order in which they came.
    pub fn log_security_event(
        &mut self,
        event_type: &str,
        severity: u8,
        timestamp: u64,
        details: String,
    )
        requires
            old(self).wf(),
        ensures
            final(self).wf(),
            final(self)@ == newest(
                old(self)@.push(
                    SecurityEventView { event_type: event_type@, severity, timestamp, details: details@ },
                ),
                MAX_EVENTS as nat,
            ),
            final(self)@.len() > 0,
            final(self)@.last() == (SecurityEventView {
                event_type: event_type@,
                severity,
                timestamp,
                details: details@,
            }),
    {
        let event = SecurityEvent {
            event_type: event_type.to_owned(),
            severity,
            timestamp,
            details,
        };
        let ghost recorded = old(self)@.push(event@);
        self.events.push_back(event);
        assert(self@ =~= recorded);
        if self.events.len() > MAX_EVENTS {
            self.events.pop_front();
            assert(self@ =~= recorded.subrange(1, recorded.len() as int));
        }
    }

    /// All events in the log, oldest first, as copies.
    pub fn get_security_events(&self) -> (events: Vec<SecurityEvent>)
        ensures
            event_views(events@) == self@,
    {
        let mut events: Vec<SecurityEvent> = Vec::new();
        let mut at: usize = 0;
        while at < self.events.len()
            invariant
                at <= self.events@.len(),
                events@.len() == at,
                forall|k: int| 0 <= k < at ==> (#[trigger] events@[k])@ == self.events@[k]@,
            decreases self.events@.len() - at,
        {
            events.push(self.events[at].clone());
            at += 1;
        }
        assert(event_views(events@) =~= self@);
        events
    }

    /// The number of severe events in the log: those whose severity is above
    /// `SEVERE_ABOVE`.
    pub fn severe_events(&self) -> (count: usize)
        ensures
            count == severe_count(self@),
    {
        let mut count: usize = 0;
        let mut at: usize = 0;
        assert(self@.take(0) =~= Seq::<SecurityEventView>::empty());
        while at < self.events.len()
            invariant
                at <= self.events@.len(),
                self@.len() == self.events@.len(),
                count == severe_count(self@.take(at as int)),
                count <= at,
            decreases self.events@.len() - at,
        {
            assert(self@.take(at + 1).drop_last() =~= self@.take(at as int));
            assert(self@.take(at + 1).last() == self.events@[at as int]@);
            if self.events[at].severity > SEVERE_ABOVE {
                count += 1;
            }
            at += 1;
        }
        assert(self@.take(at as int) =~= self@);
        count
    }
}

} // verus!

//! A bounded log of system events.

use vstd::prelude::*;
use crate::message_dispatch::MessageOp;

verus! {

/// Kinds of event.
#[derive(Debug, Clone, Copy, PartialEq, Eq, Structural)]
pub enum EventType {
    CounterOperation(MessageOp),
    ResourceCreated,
    ResourceDestroyed,
    PortMessage,
    Error,
}

/// Where an event comes from.
#[derive(Debug, Clone, Copy, PartialEq, Eq, Structural)]
pub enum EventSource {
    CounterPort,
    EchoPort,
    BufferPort,
    MathNif,
    ResourceNif,
}

/// An event; its timestamp is given when it is published.
#[derive(Debug, Clone, Copy, PartialEq, Eq, Structural)]
pub struct Event {
    pub event_type: EventType,
    pub timestamp: u64,
    pub source: EventSource,
}

impl Event {
    pub fn new(event_type: EventType, source: EventSource) -> (r: Event)
        ensures
            r == (Event { event_type, timestamp: 0, source }),
    {
        Event { event_type, timestamp: 0, source }
    }
}

/// Whether two event types are of the same kind, whatever they carry.
pub open spec fn same_kind(a: EventType, b: EventType) -> bool {
    match (a, b) {
        (EventType::CounterOperation(_), EventType::CounterOperation(_)) => true,
        (EventType::ResourceCreated, EventType::ResourceCreated) => true,
        (EventType::ResourceDestroyed, EventType::ResourceDestroyed) => true,
        (EventType::PortMessage, EventType::PortMessage) => true,
        (EventType::Error, EventType::Error) => true,
        _ => false,
    }
}

/// The log after publishing `e` at time `t` into a log capped at `max`.
pub open spec fn published(events: Seq<Event>, e: Event, t: u64, max: usize) -> Seq<Event> {
    let pushed = events.push(Event { timestamp: t, ..e });
    if pushed.len() > max {
        pushed.drop_first()
    } else {
        pushed
    }
}

/// Capacity of a fresh event log.
pub const DEFAULT_MAX_EVENTS: usize = 1000;

/// Event log. Subscribed handlers are kept by the owner of the log, which
/// hands each published event (as `publish` returns it) to them.
pub struct EventSystem {
    pub events: Vec<Event>,
    pub max_events: usize,
    pub timestamp_counter: u64,
}

impl EventSystem {
    pub fn new() -> (r: EventSystem)
        ensures
            r.events@.len() == 0,
            r.max_events == DEFAULT_MAX_EVENTS,
            r.timestamp_counter == 0,
    {
        EventSystem {
            events: Vec::new(),
            max_events: DEFAULT_MAX_EVENTS,
            timestamp_counter: 0,
        }
    }

    /// Stamps `event` with the next timestamp and appends it, dropping the
    /// oldest event if the log is then over its cap. Returns the stamped
    /// event.
    pub fn publish(&mut self, event: Event) -> (r: Event)
        requires
            old(self).timestamp_counter < u64::MAX,
        ensures
            r == (Event { timestamp: final(self).timestamp_counter, ..event }),
            final(self).timestamp_counter == old(self).timestamp_counter + 1,
            final(self).events@ == published(
                old(self).events@,
                event,
                final(self).timestamp_counter,
                old(self).max_events,
            ),
            final(self).max_events == old(self).max_events,
    {
        self.timestamp_counter = self.timestamp_counter + 1;
        let stamped = Event { timestamp: self.timestamp_counter, ..event };
        self.events.push(stamped);
        if self.events.len() > self.max_events {
            self.events.remove(0);
            proof {
                assert(self.events@ =~= published(
                    old(self).events@,
                    event,
                    self.timestamp_counter,
                    old(self).max_events,
                ));
            }
        }
        stamped
    }

    /// Publishes a counter-operation event from `source`.
    pub fn publish_counter_op(&mut self, op: MessageOp, source: EventSource)
        requires
            old(self).timestamp_counter < u64::MAX,
        ensures
            final(self).timestamp_counter == old(self).timestamp_counter + 1,
            final(self).events@ == published(
                old(self).events@,
                Event { event_type: EventType::CounterOperation(op), timestamp: 0, source },
                final(self).timestamp_counter,
                old(self).max_events,
            ),
            final(self).max_events == old(self).max_events,
    {
        let event = Event::new(EventType::CounterOperation(op), source);
        let _ = self.publish(event);
    }

    pub fn event_count(&self) -> (r: usize)
        ensures
            r == self.events@.len(),
    {
        self.events.len()
    }

    /// The events from `source`, oldest first.
    pub fn events_by_source(&self, source: EventSource) -> (r: Vec<Event>)
        ensures
            r@ == self.events@.filter(|e: Event| e.source == source),
    {
        let mut out: Vec<Event> = Vec::new();
        let mut i: usize = 0;
        while i < self.events.len()
            invariant
                i <= self.events@.len(),
                out@ == self.events@.take(i as int).filter(|e: Event| e.source == source),
            decreases self.events@.len() - i,
        {
            let e = self.events[i];
            proof {
                assert(self.events@.take(i + 1) =~= self.events@.take(i as int).push(e));
                self.events@.take(i as int).lemma_filter_push(e, |e: Event| e.source == source);
            }
            if e.source == source {
                out.push(e);
            }
            i = i + 1;
        }
        proof {
            assert(self.events@.take(i as int) =~= self.events@);
        }
        out
    }

    /// The events of the same kind as `event_type`, oldest first.
    pub fn events_by_type(&self, event_type: EventType) -> (r: Vec<Event>)
        ensures
            r@ == self.events@.filter(|e: Event| same_kind(e.event_type, event_type)),
    {
        let mut out: Vec<Event> = Vec::new();
        let mut i: usize = 0;
        while i < self.events.len()
            invariant
                i <= self.events@.len(),
                out@ == self.events@.take(i as int).filter(
                    |e: Event| same_kind(e.event_type, event_type),
                ),
            decreases self.events@.len() - i,
        {
            let e = self.events[i];
            proof {
                assert(self.events@.take(i + 1) =~= self.events@.take(i as int).push(e));
                self.events@.take(i as int).lemma_filter_push(
                    e,
                    |e: Event| same_kind(e.event_type, event_type),
                );
            }
            let same = match (e.event_type, event_type) {
                (EventType::CounterOperation(_), EventType::CounterOperation(_)) => true,
                (EventType::ResourceCreated, EventType::ResourceCreated) => true,
                (EventType::ResourceDestroyed, EventType::ResourceDestroyed) => true,
                (EventType::PortMessage, EventType::PortMessage) => true,
                (EventType::Error, EventType::Error) => true,
                _ => false,
            };
            if same {
                out.push(e);
            }
            i = i + 1;
        }
        proof {
            assert(self.events@.take(i as int) =~= self.events@);
        }
        out
    }

    pub fn clear_events(&mut self)
        ensures
            final(self).events@.len() == 0,
            final(self).max_events == old(self).max_events,
            final(self).timestamp_counter == old(self).timestamp_counter,
    {
        self.events.clear();
    }

    /// Caps the log; the cap applies from the next publication on.
    pub fn set_max_events(&mut self, max: usize)
        ensures
            final(self).max_events == max,
            final(self).events@ == old(self).events@,
            final(self).timestamp_counter == old(self).timestamp_counter,
    {
        self.max_events = max;
    }

    /// The newest event.
    pub fn last_event(&self) -> (r: Option<&Event>)
        ensures
            self.events@.len() == 0 ==> r.is_none(),
            self.events@.len() > 0 ==> r == Some(&self.events@.last()),
    {
        let n = self.events.len();
        if n == 0 {
            None
        } else {
            Some(&self.events[n - 1])
        }
    }
}

} // verus!

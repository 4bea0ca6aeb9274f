//! The event bus: fan-out publish/subscribe with a dedicated inbound
//! sub-queue and metrics hooks. The bus is modeled as the ordered log of
//! published events; a subscriber is a cursor into that log, so delivery
//! order is publish order for any subscriber that keeps up.
//!
//! Every message event on the bus carries a session key that fits the
//! grammar `<channel>:<opaque>` (lowercase-and-underscore channel, no
//! whitespace after the colon): publishing demands it, so it is an invariant
//! of the log.

use vstd::prelude::*;

use crate::metrics::MetricsStore;
use crate::metrics::sat_add;
use crate::types::Message;
use crate::types::message_like;
use crate::types::valid_session_key;

verus! {

/// What travels on the bus.
#[derive(Debug)]
pub enum Event {
    InboundMessage(Message),
    OutboundMessage(Message),
    SystemLog { level: String, message: String },
}

/// `a` carries the same event as `b`.
pub open spec fn event_like(a: Event, b: Event) -> bool {
    match (a, b) {
        (Event::InboundMessage(x), Event::InboundMessage(y)) => message_like(x, y),
        (Event::OutboundMessage(x), Event::OutboundMessage(y)) => message_like(x, y),
        (
            Event::SystemLog { level: la, message: ma },
            Event::SystemLog { level: lb, message: mb },
        ) => la@ == lb@ && ma@ == mb@,
        _ => false,
    }
}

impl Clone for Event {
    fn clone(&self) -> (r: Self)
        ensures
            event_like(r, *self),
    {
        match self {
            Event::InboundMessage(m) => Event::InboundMessage(m.clone()),
            Event::OutboundMessage(m) => Event::OutboundMessage(m.clone()),
            Event::SystemLog { level, message } => Event::SystemLog {
                level: level.clone(),
                message: message.clone(),
            },
        }
    }
}

/// The session key of a message event fits the grammar; a log entry has no
/// key to check.
pub open spec fn event_key_valid(e: Event) -> bool {
    match e {
        Event::InboundMessage(m) => valid_session_key(m.session_key@),
        Event::OutboundMessage(m) => valid_session_key(m.session_key@),
        Event::SystemLog { .. } => true,
    }
}

/// The bus: the ordered log of published events, the inbound mirror, and the
/// counters it bumps.
#[derive(Debug)]
pub struct MessageBus {
    /// Queue capacity handed to the transport layer outside the library.
    pub capacity: usize,
    /// Every published event, in publish order.
    pub events: Vec<Event>,
    /// Every published inbound message, in publish order.
    pub inbound: Vec<Message>,
    pub metrics: MetricsStore,
    pub metrics_enabled: bool,
}

impl MessageBus {
    /// Every event on the log carries a valid session key.
    pub open spec fn wf(&self) -> bool {
        &&& forall|i: int|
            0 <= i < self.events@.len() ==> event_key_valid(#[trigger] self.events@[i])
        &&& forall|i: int|
            0 <= i < self.inbound@.len() ==> valid_session_key(
                (#[trigger] self.inbound@[i]).session_key@,
            )
    }

    /// An empty bus with the given capacity and metrics disabled.
    pub fn new(capacity: usize) -> (r: Self)
        ensures
            r.wf(),
            r.capacity == capacity,
            r.events@.len() == 0,
            r.inbound@.len() == 0,
            !r.metrics_enabled,
    {
        MessageBus {
            capacity,
            events: Vec::new(),
            inbound: Vec::new(),
            metrics: MetricsStore::new(),
            metrics_enabled: false,
        }
    }

    /// Enable the metrics hooks.
    pub fn with_metrics(self) -> (r: Self)
        ensures
            r.metrics_enabled,
            r.capacity == self.capacity,
            r.events@ == self.events@,
            r.inbound@ == self.inbound@,
            r.wf() == self.wf(),
    {
        MessageBus { metrics_enabled: true, ..self }
    }

    /// Publish an event: append it to the log; an inbound message is
    /// mirrored onto the inbound queue; the counters are bumped.
    pub fn publish(&mut self, event: Event)
        requires
            old(self).wf(),
            event_key_valid(event),
        ensures
            final(self).wf(),
            final(self).events@ == old(self).events@.push(event),
            match event {
                Event::InboundMessage(m) => final(self).inbound@.len() == old(self).inbound@.len() + 1 && message_like(
                    final(self).inbound@.last(),
                    m,
                ) && final(self).inbound@.subrange(0, old(self).inbound@.len() as int) == old(self).inbound@,
                _ => final(self).inbound@ == old(self).inbound@,
            },
            final(self).capacity == old(self).capacity,
            final(self).metrics_enabled == old(self).metrics_enabled,
            final(self).metrics.messages_in == match event {
                Event::InboundMessage(_) => if old(self).metrics_enabled {
                    sat_add(old(self).metrics.messages_in, 1)
                } else {
                    old(self).metrics.messages_in
                },
                _ => old(self).metrics.messages_in,
            },
            final(self).metrics.messages_out == match event {
                Event::OutboundMessage(_) => if old(self).metrics_enabled {
                    sat_add(old(self).metrics.messages_out, 1)
                } else {
                    old(self).metrics.messages_out
                },
                _ => old(self).metrics.messages_out,
            },
    {
        match &event {
            Event::InboundMessage(m) => {
                self.inbound.push(m.clone());
                if self.metrics_enabled {
                    self.metrics.inc_messages_in();
                }
            },
            Event::OutboundMessage(_) => {
                if self.metrics_enabled {
                    self.metrics.inc_messages_out();
                }
            },
            Event::SystemLog { .. } => {
            },
        }
        self.events.push(event);
        proof {
            assert forall|i: int| 0 <= i < self.inbound@.len() implies valid_session_key(
                (#[trigger] self.inbound@[i]).session_key@,
            ) by {
                if i == self.inbound@.len() - 1 && self.inbound@.len() != old(self).inbound@.len() {
                    match event {
                        Event::InboundMessage(m) => {
                            assert(message_like(self.inbound@[i], m));
                        },
                        _ => {
                        },
                    }
                }
            }
        }
    }
}

/// A subscriber's position in the publish log. Subscribing starts at the
/// log's current end: a subscriber receives what is published after it
/// subscribed.
#[derive(Debug, Clone, Copy)]
pub struct Subscription {
    pub cursor: usize,
}

impl MessageBus {
    /// Subscribe to general events.
    pub fn subscribe(&self) -> (r: Subscription)
        ensures
            r.cursor == self.events@.len(),
    {
        Subscription { cursor: self.events.len() }
    }

    /// Subscribe to the inbound mirror.
    pub fn subscribe_inbound(&self) -> (r: Subscription)
        ensures
            r.cursor == self.inbound@.len(),
    {
        Subscription { cursor: self.inbound.len() }
    }

    /// Read the next event for this subscriber: the one at its cursor, in
    /// publish order; `None` when it has seen everything published so far.
    pub fn recv(&self, sub: &mut Subscription) -> (r: Option<Event>)
        ensures
            old(sub).cursor < self.events@.len() ==> (final(sub).cursor == old(sub).cursor + 1
                && (r matches Some(e) && event_like(e, self.events@[old(sub).cursor as int]))),
            old(sub).cursor >= self.events@.len() ==> (final(sub).cursor == old(sub).cursor
                && r is None),
    {
        if sub.cursor < self.events.len() {
            let e = self.events[sub.cursor].clone();
            sub.cursor = sub.cursor + 1;
            Some(e)
        } else {
            None
        }
    }

    /// Read the next inbound message for this subscriber.
    pub fn recv_inbound(&self, sub: &mut Subscription) -> (r: Option<Message>)
        ensures
            old(sub).cursor < self.inbound@.len() ==> (final(sub).cursor == old(sub).cursor + 1
                && (r matches Some(m) && message_like(m, self.inbound@[old(sub).cursor as int]))),
            old(sub).cursor >= self.inbound@.len() ==> (final(sub).cursor == old(sub).cursor
                && r is None),
    {
        if sub.cursor < self.inbound.len() {
            let m = self.inbound[sub.cursor].clone();
            sub.cursor = sub.cursor + 1;
            Some(m)
        } else {
            None
        }
    }
}

/// What a subscriber that subscribed at `c0` and never lags reads: the log's
/// suffix from `c0`, in publish order.
pub open spec fn reads_from(events: Seq<Event>, c0: int) -> Seq<Event> {
    events.subrange(c0, events.len() as int)
}

/// Ordering: when one event was published strictly before another, a
/// subscriber that never lags observes them in that order — the earlier
/// publish stands at the earlier read position.
pub proof fn lemma_subscriber_sees_publish_order(events: Seq<Event>, c0: int, i: int, j: int)
    requires
        0 <= c0 <= i < j < events.len(),
    ensures
        reads_from(events, c0)[i - c0] == events[i],
        reads_from(events, c0)[j - c0] == events[j],
        i - c0 < j - c0,
{
}

} // verus!

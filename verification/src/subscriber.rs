//! MQTT subscriber: the course of its sessions.
//!
//! The subscriber has a connection of its own, so that a message is never
//! dropped half read. It subscribes to the relay commands and to the safety
//! reset, then takes in one message after the other.

use vstd::prelude::*;

use crate::bsp::mqtt_topic::{RELAY_CMD_SUB, SAFETY_RESET};
use crate::format::decimal_text;
use crate::mqtt::{command_topic, law_relay_topic_texts, RECONNECT_DELAY_MS};

verus! {

/// Keep-alive period of a subscriber session: none. The broker then expects no
/// pings, whose answers would read as a loss of the session.
pub const KEEP_ALIVE_S: u16 = 0;

/// How many topics are subscribed to.
pub const TOPIC_COUNT: u8 = 2;

/// Where the subscriber is.
#[derive(Debug, Clone, Copy, PartialEq, Eq, Structural)]
pub enum Subscriber {
    Resolve,
    Connect,
    Open,
    /// The topics are subscribed to, this one next.
    Subscribe { topic: u8 },
    Receive,
    /// Pausing before the next session.
    Backoff,
}

/// What the subscriber is to do.
#[derive(Debug, Clone, Copy, PartialEq, Eq, Structural)]
pub enum SubscriberAction {
    Resolve,
    Connect,
    Open,
    Subscribe { topic: u8 },
    /// Wait for a message and take it in.
    Receive,
    Wait { ms: u64 },
}

/// What came of it.
#[derive(Debug, Clone, Copy, PartialEq, Eq, Structural)]
pub enum SubscriberEvent {
    Resolved { ok: bool },
    Connected { ok: bool },
    Opened { ok: bool },
    Subscribed { ok: bool },
    Received { ok: bool },
    Waited,
}

/// The `n`-th topic that is subscribed to.
pub open spec fn topic_of(n: u8) -> Seq<char> {
    if n == 0 {
        RELAY_CMD_SUB@
    } else {
        SAFETY_RESET@
    }
}

/// The `n`-th topic that is subscribed to.
pub fn subscription(n: u8) -> (topic: &'static str)
    requires
        n < TOPIC_COUNT,
    ensures
        topic@ == (if n == 0 {
            RELAY_CMD_SUB@
        } else {
            SAFETY_RESET@
        }),
        topic@ == topic_of(n),
{
    if n == 0 {
        RELAY_CMD_SUB
    } else {
        SAFETY_RESET
    }
}

impl Subscriber {
    pub fn new() -> (task: Self)
        ensures
            task == Subscriber::Resolve,
    {
        Subscriber::Resolve
    }

    /// Only topics that exist are named.
    pub open spec fn wf(self) -> bool {
        self matches Subscriber::Subscribe { topic } ==> topic < TOPIC_COUNT
    }

    pub open spec fn to_do(self) -> SubscriberAction {
        match self {
            Subscriber::Resolve => SubscriberAction::Resolve,
            Subscriber::Connect => SubscriberAction::Connect,
            Subscriber::Open => SubscriberAction::Open,
            Subscriber::Subscribe { topic } => SubscriberAction::Subscribe { topic },
            Subscriber::Receive => SubscriberAction::Receive,
            Subscriber::Backoff => SubscriberAction::Wait { ms: RECONNECT_DELAY_MS },
        }
    }

    /// Where the subscriber is after `event`. An event that does not belong to
    /// its action changes nothing.
    pub open spec fn next(self, event: SubscriberEvent) -> Subscriber {
        match (self, event) {
            (Subscriber::Resolve, SubscriberEvent::Resolved { ok }) => if ok {
                Subscriber::Connect
            } else {
                Subscriber::Backoff
            },
            (Subscriber::Connect, SubscriberEvent::Connected { ok }) => if ok {
                Subscriber::Open
            } else {
                Subscriber::Backoff
            },
            (Subscriber::Open, SubscriberEvent::Opened { ok }) => if ok {
                Subscriber::Subscribe { topic: 0 }
            } else {
                Subscriber::Backoff
            },
            (Subscriber::Subscribe { topic }, SubscriberEvent::Subscribed { ok }) => if !ok {
                Subscriber::Backoff
            } else if topic + 1 < TOPIC_COUNT {
                Subscriber::Subscribe { topic: (topic + 1) as u8 }
            } else {
                Subscriber::Receive
            },
            (Subscriber::Receive, SubscriberEvent::Received { ok }) => if ok {
                Subscriber::Receive
            } else {
                Subscriber::Backoff
            },
            (Subscriber::Backoff, SubscriberEvent::Waited) => Subscriber::Resolve,
            _ => self,
        }
    }

    /// What to do now.
    pub fn action(&self) -> (action: SubscriberAction)
        ensures
            action == self.to_do(),
    {
        match *self {
            Subscriber::Resolve => SubscriberAction::Resolve,
            Subscriber::Connect => SubscriberAction::Connect,
            Subscriber::Open => SubscriberAction::Open,
            Subscriber::Subscribe { topic } => SubscriberAction::Subscribe { topic },
            Subscriber::Receive => SubscriberAction::Receive,
            Subscriber::Backoff => SubscriberAction::Wait { ms: RECONNECT_DELAY_MS },
        }
    }

    /// Take in what came of the action.
    pub fn advance(&mut self, event: SubscriberEvent)
        requires
            old(self).wf(),
        ensures
            final(self).wf(),
            *final(self) == old(self).next(event),
    {
        let next = match (*self, event) {
            (Subscriber::Resolve, SubscriberEvent::Resolved { ok: true }) => Subscriber::Connect,
            (Subscriber::Resolve, SubscriberEvent::Resolved { ok: false }) => Subscriber::Backoff,
            (Subscriber::Connect, SubscriberEvent::Connected { ok: true }) => Subscriber::Open,
            (Subscriber::Connect, SubscriberEvent::Connected { ok: false }) => Subscriber::Backoff,
            (Subscriber::Open, SubscriberEvent::Opened { ok: true }) => Subscriber::Subscribe {
                topic: 0,
            },
            (Subscriber::Open, SubscriberEvent::Opened { ok: false }) => Subscriber::Backoff,
            (Subscriber::Subscribe { topic }, SubscriberEvent::Subscribed { ok }) => if !ok {
                Subscriber::Backoff
            } else if topic + 1 < TOPIC_COUNT {
                Subscriber::Subscribe { topic: topic + 1 }
            } else {
                Subscriber::Receive
            },
            (Subscriber::Receive, SubscriberEvent::Received { ok: false }) => Subscriber::Backoff,
            (Subscriber::Backoff, SubscriberEvent::Waited) => Subscriber::Resolve,
            (same, _) => same,
        };
        *self = next;
    }
}

/// Messages are taken in only once both topics are subscribed to.
pub proof fn law_receiving_needs_both_topics(task: Subscriber, event: SubscriberEvent)
    requires
        task != Subscriber::Receive,
        task.next(event) == Subscriber::Receive,
    ensures
        task matches Subscriber::Subscribe { topic } && topic + 1 >= TOPIC_COUNT,
        event == (SubscriberEvent::Subscribed { ok: true }),
{
}

/// Whatever fails, the subscriber pauses and starts over.
pub proof fn law_failures_start_over(task: Subscriber, event: SubscriberEvent)
    requires
        task.next(event) != task,
        match event {
            SubscriberEvent::Resolved { ok } => !ok,
            SubscriberEvent::Connected { ok } => !ok,
            SubscriberEvent::Opened { ok } => !ok,
            SubscriberEvent::Subscribed { ok } => !ok,
            SubscriberEvent::Received { ok } => !ok,
            SubscriberEvent::Waited => false,
        },
    ensures
        task.next(event).to_do() == (SubscriberAction::Wait { ms: RECONNECT_DELAY_MS }),
        task.next(event).next(SubscriberEvent::Waited) == Subscriber::Resolve,
{
}

/// The first subscription is that of the relay commands: the command topic of
/// every relay is its text with the number of the relay in the place of the
/// wildcard. The second is that of the reset.
pub proof fn law_subscriptions_cover_the_topics(index: nat)
    ensures
        topic_of(0) == "kc868/relay/"@ + "+"@ + "/set"@,
        command_topic(index) == "kc868/relay/"@ + decimal_text(index) + "/set"@,
        topic_of(1) == "kc868/safety/reset"@,
{
    reveal_strlit("kc868/relay/+/set");
    reveal_strlit("kc868/relay/");
    reveal_strlit("+");
    reveal_strlit("/set");
    assert(topic_of(0) =~= "kc868/relay/"@ + "+"@ + "/set"@);
    law_relay_topic_texts(index);
}

/// A session that goes well subscribes to both topics in turn and then takes in
/// one message after the other; a failed step ends it for two seconds.
pub proof fn law_sessions_run_in_steps(task: Subscriber)
    ensures
        Subscriber::Resolve.next(SubscriberEvent::Resolved { ok: true }).to_do()
            == SubscriberAction::Connect,
        Subscriber::Connect.next(SubscriberEvent::Connected { ok: true }).to_do()
            == SubscriberAction::Open,
        Subscriber::Open.next(SubscriberEvent::Opened { ok: true }).to_do() == (
        SubscriberAction::Subscribe { topic: 0 }),
        (Subscriber::Subscribe { topic: 0 }).next(SubscriberEvent::Subscribed { ok: true }).to_do()
            == (SubscriberAction::Subscribe { topic: 1 }),
        (Subscriber::Subscribe { topic: 1 }).next(SubscriberEvent::Subscribed { ok: true }).to_do()
            == SubscriberAction::Receive,
        Subscriber::Receive.next(SubscriberEvent::Received { ok: true }) == Subscriber::Receive,
        task == Subscriber::Resolve ==> task.next(SubscriberEvent::Resolved { ok: false })
            == Subscriber::Backoff,
        task == Subscriber::Connect ==> task.next(SubscriberEvent::Connected { ok: false })
            == Subscriber::Backoff,
        task == Subscriber::Open ==> task.next(SubscriberEvent::Opened { ok: false })
            == Subscriber::Backoff,
        task is Subscribe ==> task.next(SubscriberEvent::Subscribed { ok: false })
            == Subscriber::Backoff,
        task == Subscriber::Receive ==> task.next(SubscriberEvent::Received { ok: false })
            == Subscriber::Backoff,
        Subscriber::Backoff.to_do() == (SubscriberAction::Wait { ms: 2_000 }),
        Subscriber::Backoff.next(SubscriberEvent::Waited).to_do() == SubscriberAction::Resolve,
{
}

/// An event that answers something else changes nothing.
pub proof fn law_stray_events_change_nothing(task: Subscriber, event: SubscriberEvent)
    requires
        match event {
            SubscriberEvent::Resolved { .. } => task != Subscriber::Resolve,
            SubscriberEvent::Connected { .. } => task != Subscriber::Connect,
            SubscriberEvent::Opened { .. } => task != Subscriber::Open,
            SubscriberEvent::Subscribed { .. } => !(task is Subscribe),
            SubscriberEvent::Received { .. } => task != Subscriber::Receive,
            SubscriberEvent::Waited => task != Subscriber::Backoff,
        },
    ensures
        task.next(event) == task,
{
}

} // verus!

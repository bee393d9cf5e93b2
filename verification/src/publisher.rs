//! MQTT publisher: the course of its sessions.
//!
//! A session announces the board, its entities and its state, and from then on
//! publishes whatever comes first: a temperature sample, a change of state, or
//! a heartbeat. The entities are announced in every session, so that a broker
//! which lost its retained messages has them again. Every message that got
//! through pets the communication watchdog. A session that cannot be set up or
//! loses a message is set up again after a pause.

use vstd::prelude::*;

use crate::bsp::mqtt_topic::{SAFETY_STATE, STATUS, TEMPERATURE};
use crate::bsp::relay::COUNT;
use crate::format::decimal_text;
use crate::ha_discovery::{is_config, publish_all, CONFIG_COUNT};
use crate::mqtt::{
    law_relay_topic_texts, law_state_messages_tell_the_mask, level_text, online_message,
    relay_state_message, relay_state_topic, safety_state_message, safety_text, temperature_message,
    Message, RECONNECT_DELAY_MS,
};
use crate::pcf8574::is_high;
use crate::shared::Shared;
use crate::watchdog::{after_pet, pet_mqtt, MQTT_GRACE};

verus! {

/// Pause between heartbeats, in milliseconds.
pub const HEARTBEAT_PERIOD_MS: u64 = 5_000;

/// Keep-alive period of a publisher session, in seconds.
pub const KEEP_ALIVE_S: u16 = 30;

/// Where the publisher is.
#[derive(Debug, Clone, Copy, PartialEq, Eq, Structural)]
pub enum Publisher {
    Resolve,
    Connect,
    Open,
    /// The board announces itself.
    Greet,
    /// The configs are published, this one next.
    Discover { config: u8 },
    /// The relay states are published, this one next, with the relays that were
    /// on at the start. `first` if it is the first time in the session.
    Relays { index: u8, mask: u8, first: bool },
    /// The safety state is published.
    Safety { first: bool },
    /// Waiting for something to publish.
    Idle,
    Temperature,
    Heartbeat,
    /// Pausing before the next session.
    Backoff,
}

/// A message that the publisher has to send.
#[derive(Debug, Clone, Copy, PartialEq, Eq, Structural)]
pub enum Outgoing {
    /// The board is there; confirmed by the broker if it is the greeting.
    Online { greeting: bool },
    Config { config: u8 },
    RelayState { index: u8, mask: u8 },
    SafetyState { locked: bool },
    /// The sample that was taken.
    Temperature,
}

/// What the publisher is to do.
#[derive(Debug, Clone, Copy, PartialEq, Eq, Structural)]
pub enum PublisherAction {
    /// Look up the broker.
    Resolve,
    /// Connect to it.
    Connect,
    /// Open an MQTT session on the connection.
    Open,
    Send(Outgoing),
    /// Wait for a temperature sample, for a change of state, or for `ms` to
    /// pass, whichever comes first.
    WaitForNews { ms: u64 },
    Wait { ms: u64 },
}

/// What came of it.
#[derive(Debug, Clone, Copy, PartialEq, Eq, Structural)]
pub enum PublisherEvent {
    Resolved { ok: bool },
    Connected { ok: bool },
    Opened { ok: bool },
    Sent { ok: bool },
    Sampled,
    StateChanged,
    HeartbeatDue,
    Waited,
}

impl Publisher {
    pub fn new() -> (task: Self)
        ensures
            task == Publisher::Resolve,
    {
        Publisher::Resolve
    }

    /// Only relays and configs that exist are named.
    pub open spec fn wf(self) -> bool {
        match self {
            Publisher::Discover { config } => config < CONFIG_COUNT,
            Publisher::Relays { index, .. } => index < COUNT,
            _ => true,
        }
    }

    pub open spec fn to_do(self, locked: bool) -> PublisherAction {
        match self {
            Publisher::Resolve => PublisherAction::Resolve,
            Publisher::Connect => PublisherAction::Connect,
            Publisher::Open => PublisherAction::Open,
            Publisher::Greet => PublisherAction::Send(Outgoing::Online { greeting: true }),
            Publisher::Discover { config } => PublisherAction::Send(Outgoing::Config { config }),
            Publisher::Relays { index, mask, .. } => PublisherAction::Send(
                Outgoing::RelayState { index, mask },
            ),
            Publisher::Safety { .. } => PublisherAction::Send(Outgoing::SafetyState { locked }),
            Publisher::Idle => PublisherAction::WaitForNews { ms: HEARTBEAT_PERIOD_MS },
            Publisher::Temperature => PublisherAction::Send(Outgoing::Temperature),
            Publisher::Heartbeat => PublisherAction::Send(Outgoing::Online { greeting: false }),
            Publisher::Backoff => PublisherAction::Wait { ms: RECONNECT_DELAY_MS },
        }
    }

    /// Where the publisher is after `event`, with the relays that are then on.
    /// An event that does not belong to its action changes nothing.
    pub open spec fn next(self, event: PublisherEvent, on_mask: u8) -> Publisher {
        match (self, event) {
            (Publisher::Resolve, PublisherEvent::Resolved { ok }) => if ok {
                Publisher::Connect
            } else {
                Publisher::Backoff
            },
            (Publisher::Connect, PublisherEvent::Connected { ok }) => if ok {
                Publisher::Open
            } else {
                Publisher::Backoff
            },
            (Publisher::Open, PublisherEvent::Opened { ok }) => if ok {
                Publisher::Greet
            } else {
                Publisher::Backoff
            },
            (Publisher::Greet, PublisherEvent::Sent { .. }) => Publisher::Discover { config: 0 },
            (Publisher::Discover { config }, PublisherEvent::Sent { .. }) => if config + 1
                < CONFIG_COUNT {
                Publisher::Discover { config: (config + 1) as u8 }
            } else {
                Publisher::Relays { index: 0, mask: on_mask, first: true }
            },
            (Publisher::Relays { index, mask, first }, PublisherEvent::Sent { ok }) => if !ok {
                if first {
                    Publisher::Idle
                } else {
                    Publisher::Backoff
                }
            } else if index + 1 < COUNT {
                Publisher::Relays { index: (index + 1) as u8, mask, first }
            } else {
                Publisher::Safety { first }
            },
            (Publisher::Safety { first }, PublisherEvent::Sent { ok }) => if ok || first {
                Publisher::Idle
            } else {
                Publisher::Backoff
            },
            (Publisher::Idle, PublisherEvent::Sampled) => Publisher::Temperature,
            (Publisher::Idle, PublisherEvent::StateChanged) => Publisher::Relays {
                index: 0,
                mask: on_mask,
                first: false,
            },
            (Publisher::Idle, PublisherEvent::HeartbeatDue) => Publisher::Heartbeat,
            (Publisher::Temperature, PublisherEvent::Sent { ok }) => if ok {
                Publisher::Idle
            } else {
                Publisher::Backoff
            },
            (Publisher::Heartbeat, PublisherEvent::Sent { ok }) => if ok {
                Publisher::Idle
            } else {
                Publisher::Backoff
            },
            (Publisher::Backoff, PublisherEvent::Waited) => Publisher::Resolve,
            _ => self,
        }
    }

    /// The publisher has a message to send.
    pub open spec fn sends(self) -> bool {
        match self {
            Publisher::Greet => true,
            Publisher::Discover { .. } => true,
            Publisher::Relays { .. } => true,
            Publisher::Safety { .. } => true,
            Publisher::Temperature => true,
            Publisher::Heartbeat => true,
            _ => false,
        }
    }

    /// `event` says that a message got through.
    pub open spec fn pets(self, event: PublisherEvent) -> bool {
        self.sends() && event == (PublisherEvent::Sent { ok: true })
    }

    /// The state that the tasks share, after `event` at `now_ms`.
    pub open spec fn shared_after(
        self,
        event: PublisherEvent,
        shared: Shared,
        now_ms: int,
    ) -> Shared {
        if self.pets(event) {
            after_pet(shared, now_ms)
        } else {
            shared
        }
    }

    /// What to do now, with what the tasks share.
    pub open spec fn action_in(self, shared: Shared) -> PublisherAction {
        self.to_do(shared.locked)
    }

    /// Where the publisher is after `event`, with what the tasks share.
    pub open spec fn next_in(self, event: PublisherEvent, shared: Shared) -> Publisher {
        self.next(event, shared.on_mask)
    }

    /// What to do now.
    pub fn action(&self, shared: &Shared) -> (action: PublisherAction)
        ensures
            action == self.to_do(shared.locked),
            action == self.action_in(*shared),
    {
        match *self {
            Publisher::Resolve => PublisherAction::Resolve,
            Publisher::Connect => PublisherAction::Connect,
            Publisher::Open => PublisherAction::Open,
            Publisher::Greet => PublisherAction::Send(Outgoing::Online { greeting: true }),
            Publisher::Discover { config } => PublisherAction::Send(Outgoing::Config { config }),
            Publisher::Relays { index, mask, first: _ } => PublisherAction::Send(
                Outgoing::RelayState { index, mask },
            ),
            Publisher::Safety { .. } => PublisherAction::Send(
                Outgoing::SafetyState { locked: shared.locked },
            ),
            Publisher::Idle => PublisherAction::WaitForNews { ms: HEARTBEAT_PERIOD_MS },
            Publisher::Temperature => PublisherAction::Send(Outgoing::Temperature),
            Publisher::Heartbeat => PublisherAction::Send(Outgoing::Online { greeting: false }),
            Publisher::Backoff => PublisherAction::Wait { ms: RECONNECT_DELAY_MS },
        }
    }

    /// Take in what came of the action at `now_ms`.
    pub fn advance(&mut self, event: PublisherEvent, shared: &mut Shared, now_ms: u64)
        requires
            old(self).wf(),
        ensures
            final(self).wf(),
            *final(self) == old(self).next(event, old(shared).on_mask),
            *final(self) == old(self).next_in(event, *old(shared)),
            *final(shared) == (if old(self).pets(event) {
                after_pet(*old(shared), now_ms as int)
            } else {
                *old(shared)
            }),
            *final(shared) == old(self).shared_after(event, *old(shared), now_ms as int),
    {
        let on_mask: u8 = shared.on_mask;
        let retry = |ok: bool| -> (task: Publisher)
            ensures
                task == (if ok {
                    Publisher::Idle
                } else {
                    Publisher::Backoff
                }),
            {
                if ok {
                    Publisher::Idle
                } else {
                    Publisher::Backoff
                }
            };
        let task = *self;
        let sending = match task {
            Publisher::Greet => true,
            Publisher::Discover { .. } => true,
            Publisher::Relays { .. } => true,
            Publisher::Safety { .. } => true,
            Publisher::Temperature => true,
            Publisher::Heartbeat => true,
            _ => false,
        };
        if sending {
            if let PublisherEvent::Sent { ok: true } = event {
                pet_mqtt(shared, now_ms);
            }
        }
        let next = match (task, event) {
            (Publisher::Resolve, PublisherEvent::Resolved { ok }) => if ok {
                Publisher::Connect
            } else {
                Publisher::Backoff
            },
            (Publisher::Connect, PublisherEvent::Connected { ok }) => if ok {
                Publisher::Open
            } else {
                Publisher::Backoff
            },
            (Publisher::Open, PublisherEvent::Opened { ok }) => if ok {
                Publisher::Greet
            } else {
                Publisher::Backoff
            },
            (Publisher::Greet, PublisherEvent::Sent { .. }) => Publisher::Discover { config: 0 },
            (Publisher::Discover { config }, PublisherEvent::Sent { .. }) => if config + 1
                < CONFIG_COUNT {
                Publisher::Discover { config: config + 1 }
            } else {
                Publisher::Relays { index: 0, mask: on_mask, first: true }
            },
            (Publisher::Relays { index, mask, first }, PublisherEvent::Sent { ok }) => if !ok {
                retry(first)
            } else if (index as usize) + 1 < COUNT {
                Publisher::Relays { index: index + 1, mask, first }
            } else {
                Publisher::Safety { first }
            },
            (Publisher::Safety { first }, PublisherEvent::Sent { ok }) => retry(ok || first),
            (Publisher::Idle, PublisherEvent::Sampled) => Publisher::Temperature,
            (Publisher::Idle, PublisherEvent::StateChanged) => Publisher::Relays {
                index: 0,
                mask: on_mask,
                first: false,
            },
            (Publisher::Idle, PublisherEvent::HeartbeatDue) => Publisher::Heartbeat,
            (Publisher::Temperature, PublisherEvent::Sent { ok }) => retry(ok),
            (Publisher::Heartbeat, PublisherEvent::Sent { ok }) => retry(ok),
            (Publisher::Backoff, PublisherEvent::Waited) => Publisher::Resolve,
            (same, _) => same,
        };
        *self = next;
    }
}

/// The message for `outgoing`.
pub open spec fn is_message(outgoing: Outgoing, sample: Seq<char>, message: Message) -> bool {
    match outgoing {
        Outgoing::Online { greeting } => {
            &&& message.topic@ == STATUS@
            &&& message.payload@ == "online"@
            &&& message.confirmed == greeting
            &&& message.retained
        },
        Outgoing::Config { config } => is_config(config as int, message),
        Outgoing::RelayState { index, mask } => {
            &&& message.topic@ == relay_state_topic(index as nat)
            &&& message.payload@ == level_text(is_high(mask, index))
            &&& !message.confirmed
            &&& message.retained
        },
        Outgoing::SafetyState { locked } => {
            &&& message.topic@ == SAFETY_STATE@
            &&& message.payload@ == safety_text(locked)
            &&& !message.confirmed
            &&& message.retained
        },
        Outgoing::Temperature => {
            &&& message.topic@ == TEMPERATURE@
            &&& message.payload@ == sample
            &&& !message.confirmed
            &&& !message.retained
        },
    }
}

/// The message for `outgoing`, with the last temperature sample as text.
pub fn compose(outgoing: Outgoing, sample: &str) -> (message: Message)
    requires
        outgoing matches Outgoing::Config { config } ==> config < CONFIG_COUNT,
        outgoing matches Outgoing::RelayState { index, .. } ==> index < COUNT,
    ensures
        is_message(outgoing, sample@, message),
{
    match outgoing {
        Outgoing::Online { greeting } => online_message(greeting),
        Outgoing::Config { config } => publish_all(config),
        Outgoing::RelayState { index, mask } => relay_state_message(mask, index),
        Outgoing::SafetyState { locked } => safety_state_message(locked),
        Outgoing::Temperature => temperature_message(sample),
    }
}

/// The watchdog is petted for every message that got through, and for nothing
/// else.
pub proof fn law_every_message_pets(task: Publisher, event: PublisherEvent, locked: bool)
    ensures
        task.pets(event) <==> task.to_do(locked) is Send && event == (PublisherEvent::Sent {
            ok: true,
        }),
{
}

/// A message that is lost after the session has settled ends the session, and
/// the next one starts after the pause.
pub proof fn law_loss_ends_the_session(task: Publisher, on_mask: u8)
    requires
        match task {
            Publisher::Relays { first, .. } => !first,
            Publisher::Safety { first } => !first,
            Publisher::Temperature => true,
            Publisher::Heartbeat => true,
            _ => false,
        },
    ensures
        ({
            let lost = task.next(PublisherEvent::Sent { ok: false }, on_mask);
            &&& lost.to_do(true) == PublisherAction::Wait { ms: RECONNECT_DELAY_MS }
            &&& lost.next(PublisherEvent::Waited, on_mask) == Publisher::Resolve
        }),
{
}

/// `events` one after the other.
pub open spec fn after(task: Publisher, events: Seq<PublisherEvent>, on_mask: u8) -> Publisher
    decreases events.len(),
{
    if events.len() == 0 {
        task
    } else {
        after(task, events.drop_last(), on_mask).next(events.last(), on_mask)
    }
}

/// The greeting and the configs are sent once each in a session, whether or not
/// they get through, and then come the states.
pub proof fn law_session_starts_with_all_configs(sent: Seq<PublisherEvent>, on_mask: u8)
    requires
        sent.len() <= 1 + CONFIG_COUNT,
        forall|i: int| 0 <= i < sent.len() ==> #[trigger] sent[i] is Sent,
    ensures
        after(Publisher::Greet, sent, on_mask) == (if sent.len() == 0 {
            Publisher::Greet
        } else if sent.len() <= CONFIG_COUNT {
            Publisher::Discover { config: (sent.len() - 1) as u8 }
        } else {
            Publisher::Relays { index: 0, mask: on_mask, first: true }
        }),
    decreases sent.len(),
{
    if sent.len() > 0 {
        law_session_starts_with_all_configs(sent.drop_last(), on_mask);
        assert(sent.last() is Sent);
    }
}

/// A change of state publishes every relay and then the interlock, and the
/// publisher is then idle again.
pub proof fn law_change_publishes_everything(mask: u8, index: u8)
    requires
        index <= COUNT,
    ensures
        ({
            let sent = Seq::new(index as nat, |i: int| PublisherEvent::Sent { ok: true });
            let start = Publisher::Idle.next(PublisherEvent::StateChanged, mask);
            let task = after(start, sent, mask);
            if index < COUNT {
                task.to_do(true) == PublisherAction::Send(Outgoing::RelayState { index, mask })
            } else {
                &&& task.to_do(true) == PublisherAction::Send(
                    Outgoing::SafetyState { locked: true },
                )
                &&& task.to_do(false) == PublisherAction::Send(
                    Outgoing::SafetyState { locked: false },
                )
                &&& task.next(PublisherEvent::Sent { ok: true }, mask) == Publisher::Idle
            }
        }),
{
    let start = Publisher::Idle.next(PublisherEvent::StateChanged, mask);
    lemma_relays_in_turn(start, mask, index);
}

proof fn lemma_relays_in_turn(start: Publisher, mask: u8, index: u8)
    requires
        index <= COUNT,
        start == (Publisher::Relays { index: 0, mask, first: false }),
    ensures
        ({
            let sent = Seq::new(index as nat, |i: int| PublisherEvent::Sent { ok: true });
            after(start, sent, mask) == (if index < COUNT {
                Publisher::Relays { index, mask, first: false }
            } else {
                Publisher::Safety { first: false }
            })
        }),
    decreases index,
{
    if index > 0 {
        let sent = Seq::new(index as nat, |i: int| PublisherEvent::Sent { ok: true });
        let before = Seq::new((index - 1) as nat, |i: int| PublisherEvent::Sent { ok: true });
        lemma_relays_in_turn(start, mask, (index - 1) as u8);
        assert(sent.drop_last() =~= before);
    }
}

/// Heartbeats come often enough that five in a row may be lost before the watchdog
/// trips.
pub proof fn law_heartbeat_keeps_the_watchdog_quiet()
    ensures
        6 * HEARTBEAT_PERIOD_MS <= MQTT_GRACE,
{
}

/// A session is set up step by step: look up, connect, open, greet. Whatever
/// fails on the way, the next session starts after two seconds.
pub proof fn law_sessions_are_set_up_in_steps(on_mask: u8, locked: bool)
    ensures
        Publisher::Resolve.next(PublisherEvent::Resolved { ok: true }, on_mask).to_do(locked)
            == PublisherAction::Connect,
        Publisher::Connect.next(PublisherEvent::Connected { ok: true }, on_mask).to_do(locked)
            == PublisherAction::Open,
        Publisher::Open.next(PublisherEvent::Opened { ok: true }, on_mask).to_do(locked)
            == PublisherAction::Send(Outgoing::Online { greeting: true }),
        Publisher::Resolve.next(PublisherEvent::Resolved { ok: false }, on_mask)
            == Publisher::Backoff,
        Publisher::Connect.next(PublisherEvent::Connected { ok: false }, on_mask)
            == Publisher::Backoff,
        Publisher::Open.next(PublisherEvent::Opened { ok: false }, on_mask) == Publisher::Backoff,
        Publisher::Backoff.to_do(locked) == (PublisherAction::Wait { ms: 2_000 }),
        Publisher::Backoff.next(PublisherEvent::Waited, on_mask).to_do(locked)
            == PublisherAction::Resolve,
{
}

/// What comes in first is what is published: a sample, the state with the
/// relays that are on at that time, or a heartbeat after five seconds.
pub proof fn law_news_are_published(on_mask: u8, locked: bool)
    ensures
        Publisher::Idle.to_do(locked) == (PublisherAction::WaitForNews { ms: 5_000 }),
        Publisher::Idle.next(PublisherEvent::Sampled, on_mask).to_do(locked)
            == PublisherAction::Send(Outgoing::Temperature),
        Publisher::Idle.next(PublisherEvent::StateChanged, on_mask).to_do(locked)
            == PublisherAction::Send(Outgoing::RelayState { index: 0, mask: on_mask }),
        Publisher::Idle.next(PublisherEvent::HeartbeatDue, on_mask).to_do(locked)
            == PublisherAction::Send(Outgoing::Online { greeting: false }),
        Publisher::Temperature.next(PublisherEvent::Sent { ok: true }, on_mask) == Publisher::Idle,
        Publisher::Heartbeat.next(PublisherEvent::Sent { ok: true }, on_mask) == Publisher::Idle,
{
}

/// A round of relay states tells one relay after the other, all from the mask
/// with which the round began, and then the interlock. In the first round of a
/// session a lost message only ends the round.
pub proof fn law_rounds_keep_their_mask(
    index: u8,
    mask: u8,
    first: bool,
    on_mask: u8,
    locked: bool,
)
    requires
        index < 6,
    ensures
        ({
            let task = Publisher::Relays { index, mask, first };
            let told = task.next(PublisherEvent::Sent { ok: true }, on_mask);
            &&& task.to_do(locked) == PublisherAction::Send(Outgoing::RelayState { index, mask })
            &&& index < 5 ==> told == (Publisher::Relays { index: (index + 1) as u8, mask, first })
            &&& index == 5 ==> told.to_do(locked) == PublisherAction::Send(
                Outgoing::SafetyState { locked },
            ) && told.next(PublisherEvent::Sent { ok: true }, on_mask) == Publisher::Idle
            &&& task.next(PublisherEvent::Sent { ok: false }, on_mask) == (if first {
                Publisher::Idle
            } else {
                Publisher::Backoff
            })
            &&& (Publisher::Safety { first }).next(PublisherEvent::Sent { ok: false }, on_mask)
                == (if first {
                Publisher::Idle
            } else {
                Publisher::Backoff
            })
        }),
{
}

/// The kind of event that answers each action.
pub open spec fn answers(task: Publisher, event: PublisherEvent) -> bool {
    match event {
        PublisherEvent::Resolved { .. } => task == Publisher::Resolve,
        PublisherEvent::Connected { .. } => task == Publisher::Connect,
        PublisherEvent::Opened { .. } => task == Publisher::Open,
        PublisherEvent::Sent { .. } => !(task == Publisher::Resolve || task == Publisher::Connect
            || task == Publisher::Open || task == Publisher::Idle || task == Publisher::Backoff),
        PublisherEvent::Sampled => task == Publisher::Idle,
        PublisherEvent::StateChanged => task == Publisher::Idle,
        PublisherEvent::HeartbeatDue => task == Publisher::Idle,
        PublisherEvent::Waited => task == Publisher::Backoff,
    }
}

/// An event that answers something else changes nothing, and the shared state
/// changes only by a message that got through: its time is then that of the
/// publisher.
pub proof fn law_stray_events_change_nothing(
    task: Publisher,
    event: PublisherEvent,
    shared: Shared,
    now_ms: u64,
)
    requires
        task.wf(),
    ensures
        !answers(task, event) ==> task.next(event, shared.on_mask) == task && task.shared_after(
            event,
            shared,
            now_ms as int,
        ) == shared,
        answers(task, event) ==> task.next(event, shared.on_mask) != task,
        event == (PublisherEvent::Sent { ok: true }) && answers(task, event) ==> task.shared_after(
            event,
            shared,
            now_ms as int,
        ).mqtt_last_ok_ms == Some((now_ms % 0x1_0000_0000) as u32),
        event != (PublisherEvent::Sent { ok: true }) ==> task.shared_after(
            event,
            shared,
            now_ms as int,
        ) == shared,
{
}

/// The message for a relay tells exactly whether its bit is set in the mask, on
/// the topic of that relay; the one for the interlock tells whether it is
/// engaged; a sample goes out as it is, and is the one message that is not kept.
pub proof fn law_messages_tell_what_they_are_for(
    outgoing: Outgoing,
    sample: Seq<char>,
    message: Message,
)
    requires
        is_message(outgoing, sample, message),
    ensures
        outgoing matches Outgoing::RelayState { index, mask } ==> index < 6 ==> {
            &&& message.topic@ == "kc868/relay/"@ + decimal_text(index as nat) + "/state"@
            &&& (mask >> index) & 1 == 1 ==> message.payload@ == "ON"@
            &&& (mask >> index) & 1 != 1 ==> message.payload@ == "OFF"@
        },
        outgoing matches Outgoing::SafetyState { locked } ==> {
            &&& message.topic@ == "kc868/safety/state"@
            &&& locked ==> message.payload@ == "locked"@
            &&& !locked ==> message.payload@ == "ok"@
        },
        outgoing == Outgoing::Temperature ==> message.topic@ == "kc868/temperature"@
            && message.payload@ == sample,
        outgoing is Online ==> message.topic@ == "kc868/status"@ && message.payload@ == "online"@,
        message.confirmed <==> outgoing == (Outgoing::Online { greeting: true }),
        message.retained <==> outgoing != Outgoing::Temperature,
{
    if let Outgoing::RelayState { index, mask } = outgoing {
        law_relay_topic_texts(index as nat);
        if index < 6 {
            law_state_messages_tell_the_mask(mask, index);
        }
    }
}

/// The state that is published is that of the shared state: of the relays that
/// were on when the round began, and of the interlock when its turn came.
pub proof fn law_published_state_is_the_shared_one(
    shared: Shared,
    first: bool,
    event: PublisherEvent,
)
    ensures
        Publisher::Idle.next_in(PublisherEvent::StateChanged, shared) == (Publisher::Relays {
            index: 0,
            mask: shared.on_mask,
            first: false,
        }),
        event is Sent ==> (Publisher::Discover { config: 7 }).next_in(event, shared) == (
        Publisher::Relays { index: 0, mask: shared.on_mask, first: true }),
        (Publisher::Safety { first }).action_in(shared) == PublisherAction::Send(
            Outgoing::SafetyState { locked: shared.locked },
        ),
{
}

} // verus!

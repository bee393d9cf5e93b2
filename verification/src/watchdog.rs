//! Fail-safe watchdog of the communication layer.
//!
//! If the network link or the MQTT publisher has been down longer than its
//! grace period, the interlock is engaged and all relays are released. The
//! watchdog never releases the interlock: an operator has to ask for it.

use vstd::prelude::*;

use crate::safety::{interlock_set, lock};
use crate::shared::Shared;

verus! {

/// Time between two looks at the links.
pub const POLL_MS: u64 = 1_000;

/// How long the MQTT publisher may be silent, in milliseconds.
pub const MQTT_GRACE: u32 = 30_000;

/// How long the network link may be down, in milliseconds.
pub const WIFI_GRACE: u32 = 60_000;

/// The time stamp of a time since boot: its low 32 bits.
pub open spec fn stamp_of(ms: int) -> u32 {
    (ms % 0x1_0000_0000) as u32
}

/// Milliseconds from `stamp` to `now` around the 32-bit clock; nothing if the
/// subsystem was never seen alive.
pub open spec fn age(stamp: Option<u32>, now: u32) -> Option<u32> {
    match stamp {
        None => None,
        Some(seen) => Some(stamp_of(now - seen)),
    }
}

/// An age is known and exceeds the grace period.
pub open spec fn is_down(age: Option<u32>, grace: u32) -> bool {
    match age {
        None => false,
        Some(ms) => ms > grace,
    }
}

/// Time since boot as a time stamp.
pub fn now_ms_u32(ms: u64) -> (stamp: u32)
    ensures
        stamp == stamp_of(ms as int),
{
    (ms % 0x1_0000_0000) as u32
}

/// `shared` once the MQTT publisher got a message through at `now_ms`.
pub open spec fn after_pet(shared: Shared, now_ms: int) -> Shared {
    Shared { mqtt_last_ok_ms: Some(stamp_of(now_ms)), ..shared }
}

/// The MQTT publisher got a message through at `now_ms`.
pub fn pet_mqtt(shared: &mut Shared, now_ms: u64)
    ensures
        *final(shared) == after_pet(*old(shared), now_ms as int),
{
    shared.mqtt_last_ok_ms = Some(now_ms_u32(now_ms));
}

/// Milliseconds since a time stamp, `None` if the subsystem was never seen
/// alive.
pub fn age_since(stamp_ms: Option<u32>, now_ms: u32) -> (ms: Option<u32>)
    ensures
        ms == age(stamp_ms, now_ms),
{
    match stamp_ms {
        None => None,
        Some(seen) => Some(now_ms.wrapping_sub(seen)),
    }
}

/// The link that was lost.
#[derive(Debug, Clone, Copy, PartialEq, Eq, Structural)]
pub enum Loss {
    WifiAndMqtt,
    Mqtt,
    Wifi,
}

/// The words for a loss.
pub open spec fn loss_text(loss: Loss) -> Seq<char> {
    match loss {
        Loss::WifiAndMqtt => "WiFi + MQTT lost"@,
        Loss::Mqtt => "MQTT publisher lost"@,
        Loss::Wifi => "WiFi link lost"@,
    }
}

impl Loss {
    pub fn as_str(self) -> (text: &'static str)
        ensures
            text@ == (match self {
                Loss::WifiAndMqtt => "WiFi + MQTT lost"@,
                Loss::Mqtt => "MQTT publisher lost"@,
                Loss::Wifi => "WiFi link lost"@,
            }),
            text@ == loss_text(self),
    {
        match self {
            Loss::WifiAndMqtt => "WiFi + MQTT lost",
            Loss::Mqtt => "MQTT publisher lost",
            Loss::Wifi => "WiFi link lost",
        }
    }
}

/// The loss that the two links make.
pub open spec fn loss_of(mqtt_down: bool, wifi_down: bool) -> Option<Loss> {
    if mqtt_down && wifi_down {
        Some(Loss::WifiAndMqtt)
    } else if mqtt_down {
        Some(Loss::Mqtt)
    } else if wifi_down {
        Some(Loss::Wifi)
    } else {
        None
    }
}

/// `shared` once the link was looked at.
pub open spec fn link_seen(shared: Shared, now_ms: int, link_up: bool) -> Shared {
    if link_up {
        Shared { wifi_last_ok_ms: Some(stamp_of(now_ms)), ..shared }
    } else {
        shared
    }
}

/// The loss that is there at `now_ms`.
pub open spec fn loss_at(shared: Shared, now_ms: int, link_up: bool) -> Option<Loss> {
    let seen = link_seen(shared, now_ms, link_up);
    let now = stamp_of(now_ms);
    loss_of(
        is_down(age(seen.mqtt_last_ok_ms, now), MQTT_GRACE),
        is_down(age(seen.wifi_last_ok_ms, now), WIFI_GRACE),
    )
}

/// `shared` after one look at the links.
pub open spec fn after_look(shared: Shared, now_ms: int, link_up: bool) -> Shared {
    let seen = link_seen(shared, now_ms, link_up);
    if loss_at(shared, now_ms, link_up) is Some {
        interlock_set(seen, true)
    } else {
        seen
    }
}

/// The loss for which one look at the links engages the interlock.
pub open spec fn engaged_by(shared: Shared, now_ms: int, link_up: bool) -> Option<Loss> {
    if shared.locked {
        None
    } else {
        loss_at(shared, now_ms, link_up)
    }
}

fn over(ms: Option<u32>, grace: u32) -> (down: bool)
    ensures
        down == is_down(ms, grace),
{
    match ms {
        None => false,
        Some(ms) => ms > grace,
    }
}

/// One look at the links at `now_ms`. Returns the loss that engaged the
/// interlock just now: all relays are then to be released.
pub fn look(shared: &mut Shared, now_ms: u64, link_up: bool) -> (engaged: Option<Loss>)
    ensures
        *final(shared) == after_look(*old(shared), now_ms as int, link_up),
        engaged == (if old(shared).locked {
            None
        } else {
            loss_at(*old(shared), now_ms as int, link_up)
        }),
        engaged == engaged_by(*old(shared), now_ms as int, link_up),
{
    let now: u32 = now_ms_u32(now_ms);
    if link_up {
        shared.wifi_last_ok_ms = Some(now);
    }
    let mqtt_down = over(age_since(shared.mqtt_last_ok_ms, now), MQTT_GRACE);
    let wifi_down = over(age_since(shared.wifi_last_ok_ms, now), WIFI_GRACE);
    let loss = if mqtt_down && wifi_down {
        Some(Loss::WifiAndMqtt)
    } else if mqtt_down {
        Some(Loss::Mqtt)
    } else if wifi_down {
        Some(Loss::Wifi)
    } else {
        None
    };
    if let Some(reason) = loss {
        if lock(shared, reason.as_str()) {
            return Some(reason);
        }
    }
    None
}

/// The age of a stamp is the true time that passed, however often the 32-bit
/// clock wrapped since boot, as long as less than one turn of it passed.
pub proof fn law_age_survives_the_wrap(seen_ms: int, now_ms: int)
    requires
        0 <= seen_ms <= now_ms < seen_ms + 0x1_0000_0000,
    ensures
        age(Some(stamp_of(seen_ms)), stamp_of(now_ms)) == Some((now_ms - seen_ms) as u32),
{
}

/// A subsystem that was never seen alive does not trip the watchdog: a fresh
/// boot stays unlocked until the links have come up.
pub proof fn law_fresh_boot_does_not_trip(shared: Shared, now_ms: int)
    requires
        shared.mqtt_last_ok_ms is None,
        shared.wifi_last_ok_ms is None,
    ensures
        loss_at(shared, now_ms, false) is None,
        after_look(shared, now_ms, false) == shared,
{
}

/// A publisher that was silent for longer than the grace period engages the
/// interlock, and one that was heard in time does not.
pub proof fn law_silence_trips(shared: Shared, seen_ms: int, now_ms: int, link_up: bool)
    requires
        0 <= seen_ms <= now_ms < seen_ms + 0x1_0000_0000,
        shared.mqtt_last_ok_ms == Some(stamp_of(seen_ms)),
    ensures
        now_ms - seen_ms > MQTT_GRACE ==> after_look(shared, now_ms, link_up).locked,
        now_ms - seen_ms <= MQTT_GRACE && link_up && !shared.locked ==> !after_look(
            shared,
            now_ms,
            link_up,
        ).locked,
{
    law_age_survives_the_wrap(seen_ms, now_ms);
}

/// A link that was down for longer than the grace period engages the
/// interlock, and one that was up in time does not, as long as the publisher
/// was never heard or was heard in time.
pub proof fn law_lost_link_trips(shared: Shared, seen_ms: int, now_ms: int)
    requires
        0 <= seen_ms <= now_ms < seen_ms + 0x1_0000_0000,
        shared.wifi_last_ok_ms == Some(stamp_of(seen_ms)),
    ensures
        now_ms - seen_ms > WIFI_GRACE ==> after_look(shared, now_ms, false).locked,
        now_ms - seen_ms <= WIFI_GRACE && !shared.locked && !is_down(
            age(shared.mqtt_last_ok_ms, stamp_of(now_ms)),
            MQTT_GRACE,
        ) ==> !after_look(shared, now_ms, false).locked,
{
    law_age_survives_the_wrap(seen_ms, now_ms);
}

/// The watchdog never releases the interlock, not even when the links are
/// back.
pub proof fn law_watchdog_never_releases(shared: Shared, now_ms: int, link_up: bool)
    requires
        shared.locked,
    ensures
        after_look(shared, now_ms, link_up).locked,
{
}

/// `stamp` is that of a subsystem last seen alive at `seen`, less than one turn
/// of the 32-bit clock before `now`; nothing if it was never seen.
pub open spec fn stamped_at(stamp: Option<u32>, seen: Option<int>, now: int) -> bool {
    match seen {
        None => stamp is None,
        Some(ms) => {
            &&& 0 <= ms <= now < ms + 0x1_0000_0000
            &&& stamp == Some((ms % 0x1_0000_0000) as u32)
        },
    }
}

/// One look engages the interlock exactly if the publisher was silent for more
/// than 30 seconds or the link down for more than 60, counted in true time from
/// when each was last seen alive, and names what was lost. A link that is up is
/// stamped; relays, inputs and the publisher's stamp stay as they are.
pub proof fn law_look_engages_exactly_on_a_loss(
    shared: Shared,
    mqtt_seen: Option<int>,
    wifi_seen: Option<int>,
    now_ms: int,
    link_up: bool,
)
    requires
        0 <= now_ms,
        stamped_at(shared.mqtt_last_ok_ms, mqtt_seen, now_ms),
        stamped_at(shared.wifi_last_ok_ms, wifi_seen, now_ms),
    ensures
        ({
            let mqtt_lost = mqtt_seen is Some && now_ms - mqtt_seen.unwrap() > 30_000;
            let wifi_lost = !link_up && wifi_seen is Some && now_ms - wifi_seen.unwrap() > 60_000;
            let after = after_look(shared, now_ms, link_up);
            let engaged = engaged_by(shared, now_ms, link_up);
            &&& after.locked <==> shared.locked || mqtt_lost || wifi_lost
            &&& engaged is Some <==> !shared.locked && after.locked
            &&& engaged == Some(Loss::WifiAndMqtt) <==> !shared.locked && mqtt_lost && wifi_lost
            &&& engaged == Some(Loss::Mqtt) <==> !shared.locked && mqtt_lost && !wifi_lost
            &&& engaged == Some(Loss::Wifi) <==> !shared.locked && !mqtt_lost && wifi_lost
            &&& after.mqtt_last_ok_ms == shared.mqtt_last_ok_ms
            &&& stamped_at(
                after.wifi_last_ok_ms,
                if link_up {
                    Some(now_ms)
                } else {
                    wifi_seen
                },
                now_ms,
            )
            &&& after.on_mask == shared.on_mask
            &&& after.input_mask == shared.input_mask
        }),
{
    if let Some(seen) = mqtt_seen {
        lemma_down_in_true_time(seen, now_ms, 30_000);
    }
    if let Some(seen) = wifi_seen {
        lemma_down_in_true_time(seen, now_ms, 60_000);
    }
    lemma_down_in_true_time(now_ms, now_ms, 60_000);
}

proof fn lemma_down_in_true_time(seen_ms: int, now_ms: int, grace: u32)
    requires
        0 <= seen_ms <= now_ms < seen_ms + 0x1_0000_0000,
    ensures
        is_down(age(Some((seen_ms % 0x1_0000_0000) as u32), stamp_of(now_ms)), grace) <==> now_ms
            - seen_ms > grace,
{
    law_age_survives_the_wrap(seen_ms, now_ms);
}

/// A message that got through stamps the publisher with the present time and
/// changes nothing else.
pub proof fn law_a_message_stamps_the_publisher(shared: Shared, now_ms: int)
    requires
        0 <= now_ms,
    ensures
        ({
            let after = after_pet(shared, now_ms);
            &&& stamped_at(after.mqtt_last_ok_ms, Some(now_ms), now_ms)
            &&& after.wifi_last_ok_ms == shared.wifi_last_ok_ms
            &&& after.locked == shared.locked
            &&& after.changed == shared.changed
            &&& after.on_mask == shared.on_mask
            &&& after.state_changed == shared.state_changed
            &&& after.input_mask == shared.input_mask
        }),
{
}

/// Each loss has its own words.
pub proof fn law_losses_have_their_own_words(one: Loss, other: Loss)
    requires
        one != other,
    ensures
        loss_text(one) != loss_text(other),
        loss_text(Loss::WifiAndMqtt) == "WiFi + MQTT lost"@,
        loss_text(Loss::Mqtt) == "MQTT publisher lost"@,
        loss_text(Loss::Wifi) == "WiFi link lost"@,
{
    reveal_strlit("WiFi + MQTT lost");
    reveal_strlit("MQTT publisher lost");
    reveal_strlit("WiFi link lost");
    assert("WiFi + MQTT lost"@.len() == 16);
    assert("MQTT publisher lost"@.len() == 19);
    assert("WiFi link lost"@.len() == 14);
}

/// What is lost goes by the time stamps alone, around the 32-bit clock: the
/// publisher by its own, the link by its own unless it is up.
pub proof fn law_loss_goes_by_the_stamps(shared: Shared, now_ms: int, link_up: bool)
    requires
        0 <= now_ms,
    ensures
        ({
            let mqtt_lost = shared.mqtt_last_ok_ms is Some && (now_ms
                - shared.mqtt_last_ok_ms.unwrap()) % 0x1_0000_0000 > 30_000;
            let wifi_lost = !link_up && shared.wifi_last_ok_ms is Some && (now_ms
                - shared.wifi_last_ok_ms.unwrap()) % 0x1_0000_0000 > 60_000;
            &&& loss_at(shared, now_ms, link_up) is Some <==> mqtt_lost || wifi_lost
            &&& engaged_by(shared, now_ms, link_up) == (if shared.locked {
                None
            } else {
                loss_at(shared, now_ms, link_up)
            })
            &&& after_look(shared, now_ms, link_up).locked <==> shared.locked || mqtt_lost
                || wifi_lost
        }),
{
    lemma_down_in_true_time(now_ms, now_ms, 60_000);
}

} // verus!

//! State that the tasks share: the cells that one task writes and others read.

use vstd::prelude::*;

verus! {

/// What the tasks know of each other.
pub struct Shared {
    /// The safety interlock is engaged.
    pub locked: bool,
    /// The interlock flipped to this value and nobody has taken note yet.
    pub changed: Option<bool>,
    /// Relays that are on, bit per relay.
    pub on_mask: u8,
    /// Relay or safety state is to be published again.
    pub state_changed: bool,
    /// Inputs that are energised, bit per input.
    pub input_mask: u8,
    /// When the MQTT publisher last got a message through: the low 32 bits of
    /// the milliseconds since boot, `None` if it never did.
    pub mqtt_last_ok_ms: Option<u32>,
    /// When the network link was last seen up, likewise.
    pub wifi_last_ok_ms: Option<u32>,
}

/// `shared` once the note of a flip was taken.
pub open spec fn flip_taken(shared: Shared) -> Shared {
    Shared { changed: None, ..shared }
}

/// `shared` once the note to publish was taken.
pub open spec fn publish_taken(shared: Shared) -> Shared {
    Shared { state_changed: false, ..shared }
}

impl Shared {
    /// The state at boot.
    pub open spec fn at_boot() -> Shared {
        Shared {
            locked: false,
            changed: None,
            on_mask: 0,
            state_changed: false,
            input_mask: 0,
            mqtt_last_ok_ms: None,
            wifi_last_ok_ms: None,
        }
    }

    /// The state at boot: interlock released, nothing on, nothing seen.
    pub fn new() -> (shared: Self)
        ensures
            shared == (Shared {
                locked: false,
                changed: None,
                on_mask: 0,
                state_changed: false,
                input_mask: 0,
                mqtt_last_ok_ms: None,
                wifi_last_ok_ms: None,
            }),
            shared == Shared::at_boot(),
    {
        Shared {
            locked: false,
            changed: None,
            on_mask: 0,
            state_changed: false,
            input_mask: 0,
            mqtt_last_ok_ms: None,
            wifi_last_ok_ms: None,
        }
    }

    /// Take the note that the interlock flipped.
    pub fn take_changed(&mut self) -> (flipped: Option<bool>)
        ensures
            flipped == old(self).changed,
            *final(self) == flip_taken(*old(self)),
    {
        let flipped = self.changed;
        self.changed = None;
        flipped
    }

    /// Take the note that state is to be published.
    pub fn take_state_changed(&mut self) -> (pending: bool)
        ensures
            pending == old(self).state_changed,
            *final(self) == publish_taken(*old(self)),
    {
        let pending = self.state_changed;
        self.state_changed = false;
        pending
    }
}

/// Taking a note removes that note and nothing else.
pub proof fn law_notes_are_taken_one_by_one(shared: Shared)
    ensures
        ({
            let after = flip_taken(shared);
            &&& after.changed is None
            &&& after.locked == shared.locked
            &&& after.on_mask == shared.on_mask
            &&& after.state_changed == shared.state_changed
            &&& after.input_mask == shared.input_mask
            &&& after.mqtt_last_ok_ms == shared.mqtt_last_ok_ms
            &&& after.wifi_last_ok_ms == shared.wifi_last_ok_ms
        }),
        ({
            let after = publish_taken(shared);
            &&& !after.state_changed
            &&& after.locked == shared.locked
            &&& after.changed == shared.changed
            &&& after.on_mask == shared.on_mask
            &&& after.input_mask == shared.input_mask
            &&& after.mqtt_last_ok_ms == shared.mqtt_last_ok_ms
            &&& after.wifi_last_ok_ms == shared.wifi_last_ok_ms
        }),
{
}

/// At boot the interlock is released, nothing is known to be on or energised,
/// no link was seen and nothing is to be told.
pub proof fn law_boot_knows_nothing()
    ensures
        ({
            let shared = Shared::at_boot();
            &&& !shared.locked
            &&& !shared.state_changed
            &&& shared.changed is None
            &&& shared.on_mask == 0
            &&& shared.input_mask == 0
            &&& shared.mqtt_last_ok_ms is None
            &&& shared.wifi_last_ok_ms is None
        }),
{
}

} // verus!

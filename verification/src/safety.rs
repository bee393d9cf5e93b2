//! Global safety interlock.
//!
//! While it is engaged, every relay command other than all-off is refused. It
//! is engaged by an open input or by a lost link, and released only by a reset
//! request while all inputs are closed.

use vstd::prelude::*;

use crate::shared::Shared;

verus! {

/// `shared` once the interlock was set to `locked`. Only a flip is noted.
pub open spec fn interlock_set(shared: Shared, locked: bool) -> Shared {
    if shared.locked == locked {
        shared
    } else {
        Shared { locked, changed: Some(locked), state_changed: true, ..shared }
    }
}

pub fn is_locked(shared: &Shared) -> (locked: bool)
    ensures
        locked == shared.locked,
{
    shared.locked
}

/// Engage the interlock. Returns whether this call flipped it. `reason` is for
/// the log.
pub fn lock(shared: &mut Shared, reason: &'static str) -> (flipped: bool)
    ensures
        flipped == !old(shared).locked,
        *final(shared) == interlock_set(*old(shared), true),
{
    let flipped = !shared.locked;
    if flipped {
        shared.locked = true;
        shared.changed = Some(true);
        shared.state_changed = true;
    }
    flipped
}

/// Release the interlock. Returns whether this call flipped it.
pub fn unlock(shared: &mut Shared, reason: &'static str) -> (flipped: bool)
    ensures
        flipped == old(shared).locked,
        *final(shared) == interlock_set(*old(shared), false),
{
    let flipped = shared.locked;
    if flipped {
        shared.locked = false;
        shared.changed = Some(false);
        shared.state_changed = true;
    }
    flipped
}

/// Engaging or releasing the interlock a second time changes nothing.
pub proof fn law_interlock_is_idempotent(shared: Shared, locked: bool)
    ensures
        interlock_set(interlock_set(shared, locked), locked) == interlock_set(shared, locked),
{
}

/// Setting the interlock sets it, and notes so exactly if that flips it. What
/// the relays, the inputs and the links are known to be stays as it is.
pub proof fn law_flip_is_noted_once(shared: Shared, locked: bool)
    ensures
        ({
            let after = interlock_set(shared, locked);
            &&& after.locked == locked
            &&& shared.locked != locked ==> after.changed == Some(locked) && after.state_changed
            &&& shared.locked == locked ==> after == shared
            &&& after.on_mask == shared.on_mask
            &&& after.input_mask == shared.input_mask
            &&& after.mqtt_last_ok_ms == shared.mqtt_last_ok_ms
            &&& after.wifi_last_ok_ms == shared.wifi_last_ok_ms
        }),
{
}

} // verus!

//! Opto-isolated inputs.
//!
//! With a fail-safe loop through a chain of normally closed contacts, every
//! input is energised while all is well, and an energised input reads low. An
//! input that opens engages the safety interlock, but only once it was seen
//! open in consecutive reads: contacts bounce. The interlock is not released by
//! itself when the inputs close again.

use vstd::prelude::*;

use crate::bsp::input::MASK;
use crate::safety::{interlock_set, is_locked, lock, unlock};
use crate::shared::Shared;

verus! {

/// Consecutive alarm reads that engage the interlock.
pub const DEBOUNCE_REQUIRED: u8 = 2;

/// The inputs that a port reading shows energised, bit per input.
pub open spec fn energised(raw: u8) -> u8 {
    !raw & MASK
}

/// A reading that shows an input open.
pub open spec fn is_alarm(raw: u8) -> bool {
    energised(raw) != MASK
}

/// Inputs that are energised.
pub fn current_mask(shared: &Shared) -> (mask: u8)
    ensures
        mask == shared.input_mask,
{
    shared.input_mask
}

/// What the input task keeps between two reads.
#[derive(Debug, Clone, Copy, PartialEq, Eq, Structural)]
pub struct InputMonitor {
    /// The inputs as they were last reported.
    pub last_logged: Option<u8>,
    /// Alarm reads in a row, saturating.
    pub alarm_streak: u8,
}

/// What a read brings about.
#[derive(Debug, Clone, Copy, PartialEq, Eq, Structural)]
pub struct InputAction {
    /// The inputs changed and are to be reported.
    pub report: Option<u8>,
    /// The read engaged the interlock: all relays are to be released.
    pub all_off: bool,
}

impl InputMonitor {
    /// The monitor before the first read.
    pub open spec fn at_boot() -> InputMonitor {
        InputMonitor { last_logged: None, alarm_streak: 0 }
    }

    pub fn new() -> (monitor: Self)
        ensures
            monitor == (InputMonitor { last_logged: None, alarm_streak: 0 }),
            monitor == InputMonitor::at_boot(),
    {
        InputMonitor { last_logged: None, alarm_streak: 0 }
    }

    /// The streak after one more read.
    pub open spec fn streak_after(self, raw: u8, armed: bool) -> u8 {
        if !armed {
            self.alarm_streak
        } else if !is_alarm(raw) {
            0
        } else if self.alarm_streak == 0xFF {
            0xFF
        } else {
            (self.alarm_streak + 1) as u8
        }
    }

    /// The read makes the streak long enough to engage the interlock.
    pub open spec fn trips(self, raw: u8, armed: bool) -> bool {
        armed && is_alarm(raw) && self.streak_after(raw, armed) >= DEBOUNCE_REQUIRED
    }

    /// The monitor after one more read.
    pub open spec fn after_read(self, raw: u8, armed: bool) -> InputMonitor {
        InputMonitor {
            last_logged: Some(energised(raw)),
            alarm_streak: self.streak_after(raw, armed),
        }
    }

    /// `shared` after one more read.
    pub open spec fn shared_after(self, raw: u8, armed: bool, shared: Shared) -> Shared {
        let seen = Shared { input_mask: energised(raw), ..shared };
        if self.trips(raw, armed) {
            interlock_set(seen, true)
        } else {
            seen
        }
    }

    /// What one more read brings about.
    pub open spec fn action_on(self, raw: u8, armed: bool, shared: Shared) -> InputAction {
        InputAction {
            report: if self.last_logged == Some(energised(raw)) {
                None
            } else {
                Some(energised(raw))
            },
            all_off: self.trips(raw, armed) && !shared.locked,
        }
    }

    /// Take in one port reading. `armed` says whether the inputs drive the
    /// interlock.
    pub fn on_read(&mut self, raw: u8, armed: bool, shared: &mut Shared) -> (action: InputAction)
        ensures
            *final(self) == old(self).after_read(raw, armed),
            *final(shared) == old(self).shared_after(raw, armed, *old(shared)),
            action.report == (if old(self).last_logged == Some(energised(raw)) {
                None
            } else {
                Some(energised(raw))
            }),
            action.all_off == (old(self).trips(raw, armed) && !old(shared).locked),
            action == old(self).action_on(raw, armed, *old(shared)),
    {
        let mask: u8 = !raw & MASK;
        shared.input_mask = mask;
        let known = match self.last_logged {
            Some(logged) => logged == mask,
            None => false,
        };
        let report = if known {
            None
        } else {
            Some(mask)
        };
        self.last_logged = Some(mask);
        let mut all_off = false;
        if armed {
            if mask == MASK {
                self.alarm_streak = 0;
            } else {
                self.alarm_streak = self.alarm_streak.saturating_add(1);
                if self.alarm_streak >= DEBOUNCE_REQUIRED {
                    all_off = lock(shared, "input opened");
                }
            }
        }
        InputAction { report, all_off }
    }
}

/// A reset request is granted: the interlock is engaged and all inputs are
/// energised.
pub open spec fn reset_granted(shared: Shared) -> bool {
    shared.locked && shared.input_mask == MASK
}

/// `shared` after a reset request.
pub open spec fn after_reset(shared: Shared) -> Shared {
    if reset_granted(shared) {
        interlock_set(shared, false)
    } else {
        shared
    }
}

/// Try to release the interlock: succeeds only if it is engaged and all inputs
/// are energised.
pub fn try_safety_reset(shared: &mut Shared) -> (granted: bool)
    ensures
        granted == reset_granted(*old(shared)),
        *final(shared) == after_reset(*old(shared)),
{
    if !is_locked(shared) {
        return false;
    }
    if current_mask(shared) == MASK {
        unlock(shared, "manual reset, all inputs safe")
    } else {
        false
    }
}

/// A reset releases the interlock exactly when all inputs are energised, and
/// tells so; where there is nothing to release it changes nothing.
pub proof fn law_reset_needs_closed_inputs(shared: Shared)
    ensures
        shared.locked ==> (!after_reset(shared).locked <==> shared.input_mask == MASK),
        reset_granted(shared) <==> shared.locked && !after_reset(shared).locked,
        !reset_granted(shared) ==> after_reset(shared) == shared,
{
}

/// No reading of the inputs releases the interlock.
pub proof fn law_reads_never_release(monitor: InputMonitor, shared: Shared, raw: u8, armed: bool)
    requires
        shared.locked,
    ensures
        monitor.shared_after(raw, armed, shared).locked,
{
}

/// All inputs energised is all six port bits low; the other two do not matter.
pub proof fn law_safe_is_all_low(raw: u8)
    ensures
        is_alarm(raw) <==> raw & MASK != 0,
{
    assert((!raw & 0x3Fu8 != 0x3F) == (raw & 0x3Fu8 != 0)) by (bit_vector);
}

/// The streak after a run of reads from boot on.
pub open spec fn streak_of(reads: Seq<u8>) -> u8
    decreases reads.len(),
{
    if reads.len() == 0 {
        0
    } else {
        (InputMonitor { last_logged: None, alarm_streak: streak_of(reads.drop_last()) }).streak_after(
            reads.last(),
            true,
        )
    }
}

/// Some read of the run engages the interlock.
pub open spec fn run_trips(reads: Seq<u8>) -> bool
    decreases reads.len(),
{
    &&& reads.len() > 0
    &&& run_trips(reads.drop_last()) || (InputMonitor {
        last_logged: None,
        alarm_streak: streak_of(reads.drop_last()),
    }).trips(reads.last(), true)
}

proof fn lemma_streak(reads: Seq<u8>)
    ensures
        streak_of(reads) >= 1 <==> reads.len() >= 1 && is_alarm(reads.last()),
        streak_of(reads) >= 2 <==> reads.len() >= 2 && is_alarm(reads.last()) && is_alarm(
            reads[reads.len() - 2],
        ),
    decreases reads.len(),
{
    if reads.len() > 0 {
        lemma_streak(reads.drop_last());
    }
}

/// The interlock is engaged by two alarm reads in a row and by nothing less:
/// single spikes, however many, do not engage it.
pub proof fn law_two_alarms_in_a_row(reads: Seq<u8>)
    ensures
        run_trips(reads) <==> exists|i: int|
            0 <= i < reads.len() - 1 && #[trigger] is_alarm(reads[i]) && is_alarm(reads[i + 1]),
    decreases reads.len(),
{
    if reads.len() > 0 {
        let before = reads.drop_last();
        law_two_alarms_in_a_row(before);
        lemma_streak(before);
        if run_trips(reads) {
            if run_trips(before) {
                let i = choose|i: int|
                    0 <= i < before.len() - 1 && #[trigger] is_alarm(before[i]) && is_alarm(
                        before[i + 1],
                    );
                assert(is_alarm(reads[i]) && is_alarm(reads[i + 1]));
            } else {
                let i = reads.len() - 2;
                assert(is_alarm(reads[i]) && is_alarm(reads[i + 1]));
            }
        }
        if exists|i: int|
            0 <= i < reads.len() - 1 && #[trigger] is_alarm(reads[i]) && is_alarm(reads[i + 1]) {
            let i = choose|i: int|
                0 <= i < reads.len() - 1 && #[trigger] is_alarm(reads[i]) && is_alarm(reads[i + 1]);
            if i < before.len() - 1 {
                assert(is_alarm(before[i]) && is_alarm(before[i + 1]));
            }
        }
    }
}

/// A reading is noted input by input: bit `i` is set exactly if the port reads
/// bit `i` low, the bits beyond the inputs are clear. Relays and links stay as
/// they are known, and a reading that does not drive the interlock changes
/// nothing else.
pub proof fn law_reading_is_noted(
    monitor: InputMonitor,
    shared: Shared,
    raw: u8,
    armed: bool,
    input: u8,
)
    requires
        input < 6,
    ensures
        ({
            let after = monitor.shared_after(raw, armed, shared);
            &&& after.input_mask & (1u8 << input) != 0 <==> raw & (1u8 << input) == 0
            &&& after.input_mask < 64
            &&& after.on_mask == shared.on_mask
            &&& after.mqtt_last_ok_ms == shared.mqtt_last_ok_ms
            &&& after.wifi_last_ok_ms == shared.wifi_last_ok_ms
            &&& monitor.after_read(raw, armed).last_logged == Some(after.input_mask)
            &&& !armed ==> {
                &&& after.locked == shared.locked
                &&& after.changed == shared.changed
                &&& after.state_changed == shared.state_changed
                &&& monitor.after_read(raw, armed).alarm_streak == monitor.alarm_streak
            }
        }),
{
    assert({
        &&& energised(raw) & (1u8 << input) != 0 <==> raw & (1u8 << input) == 0
        &&& energised(raw) < 64
    }) by (bit_vector)
        requires
            input < 6,
    ;
}

/// The relays are to be released exactly by the read that engages the
/// interlock, and a reading is reported exactly if it differs from the one
/// before.
pub proof fn law_actions_follow_the_state(
    monitor: InputMonitor,
    shared: Shared,
    raw: u8,
    armed: bool,
)
    ensures
        ({
            let action = monitor.action_on(raw, armed, shared);
            let after = monitor.shared_after(raw, armed, shared);
            &&& action.all_off <==> !shared.locked && after.locked
            &&& action.report is None <==> monitor.last_logged == Some(after.input_mask)
            &&& action.report matches Some(mask) ==> mask == after.input_mask
        }),
{
}

/// A reset is granted exactly if the interlock is engaged and all six inputs
/// were last seen energised. It then releases the interlock and has that
/// published; what is known of relays, inputs and links stays.
pub proof fn law_reset_releases_and_tells(shared: Shared)
    ensures
        reset_granted(shared) <==> shared.locked && shared.input_mask == 0x3F,
        reset_granted(shared) ==> {
            let after = after_reset(shared);
            &&& !after.locked
            &&& after.changed == Some(false)
            &&& after.state_changed
            &&& after.on_mask == shared.on_mask
            &&& after.input_mask == shared.input_mask
            &&& after.mqtt_last_ok_ms == shared.mqtt_last_ok_ms
            &&& after.wifi_last_ok_ms == shared.wifi_last_ok_ms
        },
{
}

} // verus!

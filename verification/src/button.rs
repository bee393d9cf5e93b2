//! Front-panel button: relay self-test.
//!
//! A press runs a chase over the relays, one at a time, then all off. The
//! button idles high and bounces, so an edge counts only if the level is still
//! low after the contacts have settled. The chase is refused while the safety
//! interlock is engaged.

use vstd::prelude::*;

use crate::bsp::relay::COUNT;
use crate::relays::{mask_port, on_bits, RelayCommand};

verus! {

/// Time that the contacts get to settle.
pub const DEBOUNCE_MS: u64 = 50;

/// Time that each relay of the chase stays on.
pub const CHASE_STEP_MS: u64 = 200;

/// Where the button task is.
#[derive(Debug, Clone, Copy, PartialEq, Eq, Structural)]
pub enum ButtonTask {
    /// Waiting for a press.
    Idle,
    /// An edge was seen and settles.
    Settle,
    /// The chase switches to relay `relay`.
    Drive { relay: u8 },
    /// The chase stays on relay `relay`.
    Hold { relay: u8 },
    /// The chase ends.
    Off,
    /// Waiting for the button to be let go.
    Release,
    /// The button was let go and settles.
    ReleaseSettle,
}

/// What the button task is to do.
#[derive(Debug, Clone, Copy, PartialEq, Eq, Structural)]
pub enum ButtonAction {
    WaitFallingEdge,
    Wait { ms: u64 },
    Send(RelayCommand),
    WaitHigh,
}

impl ButtonTask {
    pub fn new() -> (task: Self)
        ensures
            task == ButtonTask::Idle,
    {
        ButtonTask::Idle
    }

    /// The chase names only relays that exist.
    pub open spec fn wf(self) -> bool {
        match self {
            ButtonTask::Drive { relay } => relay < COUNT,
            ButtonTask::Hold { relay } => relay < COUNT,
            _ => true,
        }
    }

    pub open spec fn to_do(self) -> ButtonAction {
        match self {
            ButtonTask::Idle => ButtonAction::WaitFallingEdge,
            ButtonTask::Settle => ButtonAction::Wait { ms: DEBOUNCE_MS },
            ButtonTask::Drive { relay } => ButtonAction::Send(
                RelayCommand::SetMask(1u8 << relay),
            ),
            ButtonTask::Hold { .. } => ButtonAction::Wait { ms: CHASE_STEP_MS },
            ButtonTask::Off => ButtonAction::Send(RelayCommand::AllOff),
            ButtonTask::Release => ButtonAction::WaitHigh,
            ButtonTask::ReleaseSettle => ButtonAction::Wait { ms: DEBOUNCE_MS },
        }
    }

    /// Where the task is once its action is done, with the button and the
    /// interlock as they then are.
    pub open spec fn next(self, button_high: bool, locked: bool) -> ButtonTask {
        match self {
            ButtonTask::Idle => ButtonTask::Settle,
            ButtonTask::Settle => if button_high {
                ButtonTask::Idle
            } else if locked {
                ButtonTask::Release
            } else {
                ButtonTask::Drive { relay: 0 }
            },
            ButtonTask::Drive { relay } => ButtonTask::Hold { relay },
            ButtonTask::Hold { relay } => if relay + 1 < COUNT {
                ButtonTask::Drive { relay: (relay + 1) as u8 }
            } else {
                ButtonTask::Off
            },
            ButtonTask::Off => ButtonTask::Release,
            ButtonTask::Release => ButtonTask::ReleaseSettle,
            ButtonTask::ReleaseSettle => ButtonTask::Idle,
        }
    }

    /// What to do now.
    pub fn action(&self) -> (action: ButtonAction)
        requires
            self.wf(),
        ensures
            action == self.to_do(),
    {
        match self {
            ButtonTask::Idle => ButtonAction::WaitFallingEdge,
            ButtonTask::Settle => ButtonAction::Wait { ms: DEBOUNCE_MS },
            ButtonTask::Drive { relay } => ButtonAction::Send(
                RelayCommand::SetMask(1u8 << *relay),
            ),
            ButtonTask::Hold { .. } => ButtonAction::Wait { ms: CHASE_STEP_MS },
            ButtonTask::Off => ButtonAction::Send(RelayCommand::AllOff),
            ButtonTask::Release => ButtonAction::WaitHigh,
            ButtonTask::ReleaseSettle => ButtonAction::Wait { ms: DEBOUNCE_MS },
        }
    }

    /// The action is done.
    pub fn advance(&mut self, button_high: bool, locked: bool)
        requires
            old(self).wf(),
        ensures
            final(self).wf(),
            *final(self) == old(self).next(button_high, locked),
    {
        let next = match self {
            ButtonTask::Idle => ButtonTask::Settle,
            ButtonTask::Settle => if button_high {
                ButtonTask::Idle
            } else if locked {
                ButtonTask::Release
            } else {
                ButtonTask::Drive { relay: 0 }
            },
            ButtonTask::Drive { relay } => ButtonTask::Hold { relay: *relay },
            ButtonTask::Hold { relay } => if (*relay as usize) + 1 < COUNT {
                ButtonTask::Drive { relay: *relay + 1 }
            } else {
                ButtonTask::Off
            },
            ButtonTask::Off => ButtonTask::Release,
            ButtonTask::Release => ButtonTask::ReleaseSettle,
            ButtonTask::ReleaseSettle => ButtonTask::Idle,
        };
        *self = next;
    }
}

/// The commands that the task sends from `task` until it waits for the button
/// to be let go, whatever button and interlock do meanwhile.
pub open spec fn chase(task: ButtonTask) -> Seq<RelayCommand>
    decreases
            match task {
                ButtonTask::Drive { relay } => 3 * (0x100 - relay) + 2,
                ButtonTask::Hold { relay } => 3 * (0x100 - relay) + 1,
                ButtonTask::Off => 1int,
                _ => 0,
            },
{
    match task {
        ButtonTask::Drive { relay } => seq![RelayCommand::SetMask(1u8 << relay)] + chase(
            task.next(false, false),
        ),
        ButtonTask::Hold { .. } => chase(task.next(false, false)),
        ButtonTask::Off => seq![RelayCommand::AllOff],
        _ => Seq::empty(),
    }
}

/// A press that settles low runs the chase exactly when the interlock is
/// released: the six relays in turn, then all off. A press while it is engaged,
/// or one that was only a bounce, sends nothing.
pub proof fn law_press_runs_the_chase()
    ensures
        chase(ButtonTask::Settle.next(false, false)) == seq![
            RelayCommand::SetMask(1u8 << 0u8),
            RelayCommand::SetMask(1u8 << 1u8),
            RelayCommand::SetMask(1u8 << 2u8),
            RelayCommand::SetMask(1u8 << 3u8),
            RelayCommand::SetMask(1u8 << 4u8),
            RelayCommand::SetMask(1u8 << 5u8),
            RelayCommand::AllOff,
        ],
        chase(ButtonTask::Settle.next(false, true)) == Seq::<RelayCommand>::empty(),
        chase(ButtonTask::Settle.next(true, false)) == Seq::<RelayCommand>::empty(),
        chase(ButtonTask::Settle.next(true, true)) == Seq::<RelayCommand>::empty(),
{
    reveal_with_fuel(chase, 14);
}

/// Once the chase has begun, neither the button nor the interlock changes its
/// course.
pub proof fn law_chase_runs_through(task: ButtonTask, button_high: bool, locked: bool)
    requires
        task is Drive || task is Hold || task is Off,
    ensures
        task.next(button_high, locked) == task.next(false, false),
{
}

/// Every step of the chase has exactly one relay on.
pub proof fn law_chase_drives_one_relay(relay: u8)
    requires
        relay < COUNT,
    ensures
        on_bits(mask_port(1u8 << relay)) == 1u8 << relay,
{
    assert(on_bits(mask_port(1u8 << relay)) == 1u8 << relay) by (bit_vector)
        requires
            relay < 6,
    ;
}

/// After a press the task cannot see another one before the button was let go
/// and has settled.
pub proof fn law_one_press_counts_once(button_high: bool, locked: bool)
    ensures
        ButtonTask::Off.next(button_high, locked) == ButtonTask::Release,
        ButtonTask::Release.to_do() == ButtonAction::WaitHigh,
        ButtonTask::Release.next(button_high, locked) == ButtonTask::ReleaseSettle,
        ButtonTask::ReleaseSettle.to_do() == (ButtonAction::Wait { ms: DEBOUNCE_MS }),
        ButtonTask::ReleaseSettle.next(button_high, locked) == ButtonTask::Idle,
{
}

/// The task sends what the chase says, one command after the other: relay `i`
/// alone for 200 ms each, the others released, then all off. Everywhere else it
/// sends nothing.
pub proof fn law_task_sends_the_chase(relay: u8, other: u8, button_high: bool, locked: bool)
    requires
        relay < 6,
        other < 6,
    ensures
        (ButtonTask::Drive { relay }).to_do() matches ButtonAction::Send(command)
            && command matches RelayCommand::SetMask(mask) && (mask & (1u8 << other) != 0 <==> other
            == relay) && mask < 64,
        (ButtonTask::Drive { relay }).to_do() == ButtonAction::Send(
            chase(ButtonTask::Drive { relay })[0],
        ),
        (ButtonTask::Drive { relay }).next(button_high, locked) == (ButtonTask::Hold { relay }),
        (ButtonTask::Hold { relay }).to_do() == (ButtonAction::Wait { ms: 200 }),
        (ButtonTask::Hold { relay }).next(button_high, locked) == (if relay < 5 {
            ButtonTask::Drive { relay: (relay + 1) as u8 }
        } else {
            ButtonTask::Off
        }),
        ButtonTask::Off.to_do() == ButtonAction::Send(RelayCommand::AllOff),
        ButtonTask::Idle.to_do() == ButtonAction::WaitFallingEdge,
        ButtonTask::Idle.next(button_high, locked) == ButtonTask::Settle,
        ButtonTask::Settle.to_do() == (ButtonAction::Wait { ms: 50 }),
        ButtonTask::Release.to_do() == ButtonAction::WaitHigh,
        ButtonTask::ReleaseSettle.to_do() == (ButtonAction::Wait { ms: 50 }),
{
    assert({
        &&& (1u8 << relay) & (1u8 << other) != 0 <==> other == relay
        &&& 1u8 << relay < 64
    }) by (bit_vector)
        requires
            relay < 6,
            other < 6,
    ;
}

} // verus!

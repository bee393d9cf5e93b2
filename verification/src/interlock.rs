//! The interlock across all tasks: what engages it, and what alone releases it.

use vstd::prelude::*;

use crate::bsp::input::MASK;
use crate::inputs::{
    after_reset, energised, is_alarm, law_safe_is_all_low, law_two_alarms_in_a_row, reset_granted,
    run_trips, streak_of, InputMonitor,
};
use crate::relays::shared_after_write;
use crate::shared::{flip_taken, publish_taken, Shared};
use crate::watchdog::{after_look, after_pet, loss_at};

verus! {

/// Something that one of the tasks does to the shared state.
pub enum Happening {
    /// The inputs are read.
    Read { raw: u8, armed: bool },
    /// The watchdog looks at the links.
    Look { now_ms: u64, link_up: bool },
    /// A reset is requested.
    Reset,
    /// A message got through.
    Published { now_ms: u64 },
    /// A byte was driven on the relay port, for a command or because one was
    /// refused.
    Switched { port: u8, refused: bool },
    /// The note that the interlock flipped is taken.
    FlipNoted,
    /// The note that state is to be published is taken.
    PublishNoted,
}

/// The state that the interlock rests on.
pub struct Board {
    pub shared: Shared,
    pub monitor: InputMonitor,
}

impl Board {
    /// The board at boot.
    pub open spec fn at_boot() -> Board {
        Board { shared: Shared::at_boot(), monitor: InputMonitor::at_boot() }
    }

    pub open spec fn after(self, happening: Happening) -> Board {
        match happening {
            Happening::Read { raw, armed } => Board {
                shared: self.monitor.shared_after(raw, armed, self.shared),
                monitor: self.monitor.after_read(raw, armed),
            },
            Happening::Look { now_ms, link_up } => Board {
                shared: after_look(self.shared, now_ms as int, link_up),
                ..self
            },
            Happening::Reset => Board { shared: after_reset(self.shared), ..self },
            Happening::Published { now_ms } => Board {
                shared: after_pet(self.shared, now_ms as int),
                ..self
            },
            Happening::Switched { port, refused } => Board {
                shared: shared_after_write(self.shared, port, refused),
                ..self
            },
            Happening::FlipNoted => Board { shared: flip_taken(self.shared), ..self },
            Happening::PublishNoted => Board { shared: publish_taken(self.shared), ..self },
        }
    }

    /// The board after all of `happenings`, in order.
    pub open spec fn after_all(self, happenings: Seq<Happening>) -> Board
        decreases happenings.len(),
    {
        if happenings.len() == 0 {
            self
        } else {
            self.after_all(happenings.drop_last()).after(happenings.last())
        }
    }
}

/// `happening` is a reset that is granted.
pub open spec fn releases(board: Board, happening: Happening) -> bool {
    happening is Reset && reset_granted(board.shared)
}

/// Nothing but a granted reset releases the interlock.
pub proof fn law_only_a_reset_releases(board: Board, happening: Happening)
    requires
        board.shared.locked,
    ensures
        !board.after(happening).shared.locked <==> releases(board, happening),
{
}

/// Once engaged, the interlock stays engaged through everything that happens,
/// until a reset is granted.
pub proof fn law_interlock_holds(board: Board, happenings: Seq<Happening>)
    requires
        board.shared.locked,
        forall|i: int|
            0 <= i < happenings.len() ==> !releases(
                board.after_all(#[trigger] happenings.take(i)),
                happenings[i],
            ),
    ensures
        board.after_all(happenings).shared.locked,
    decreases happenings.len(),
{
    if happenings.len() > 0 {
        let before = happenings.drop_last();
        assert forall|i: int| 0 <= i < before.len() implies !releases(
            board.after_all(#[trigger] before.take(i)),
            before[i],
        ) by {
            assert(before.take(i) =~= happenings.take(i));
        }
        law_interlock_holds(board, before);
        assert(happenings.take(happenings.len() - 1) =~= before);
    }
}

/// The interlock is never released unless the last reading found all inputs
/// energised, whether or not they drive it.
pub proof fn law_release_needs_the_last_reading(
    board: Board,
    raw: u8,
    armed: bool,
    between: Seq<Happening>,
    reset: Happening,
)
    requires
        reset is Reset,
        forall|i: int| 0 <= i < between.len() ==> !(#[trigger] between[i] is Read),
        board.after(Happening::Read { raw, armed }).after_all(between).shared.locked,
        !board.after(Happening::Read { raw, armed }).after_all(between).after(
            reset,
        ).shared.locked,
    ensures
        energised(raw) == MASK,
{
    lemma_inputs_kept(board.after(Happening::Read { raw, armed }), between);
}

proof fn lemma_inputs_kept(board: Board, between: Seq<Happening>)
    requires
        forall|i: int| 0 <= i < between.len() ==> !(#[trigger] between[i] is Read),
    ensures
        board.after_all(between).shared.input_mask == board.shared.input_mask,
    decreases between.len(),
{
    if between.len() > 0 {
        let before = between.drop_last();
        assert forall|i: int| 0 <= i < before.len() implies !(#[trigger] before[i] is Read) by {
            assert(before[i] == between[i]);
        }
        lemma_inputs_kept(board, before);
        assert(!(between[between.len() - 1] is Read));
    }
}

/// Every flip of the interlock is noted, and asks for the state to be
/// published.
pub proof fn law_flips_are_noted(board: Board, happening: Happening)
    requires
        board.after(happening).shared.locked != board.shared.locked,
    ensures
        board.after(happening).shared.changed == Some(board.after(happening).shared.locked),
        board.after(happening).shared.state_changed,
{
}

/// Armed readings of the inputs, one after the other.
pub open spec fn armed_reads(reads: Seq<u8>) -> Seq<Happening> {
    Seq::new(reads.len(), |i: int| Happening::Read { raw: reads[i], armed: true })
}

proof fn lemma_run_of_reads(board: Board, reads: Seq<u8>)
    requires
        !board.shared.locked,
        board.monitor.alarm_streak == 0,
    ensures
        board.after_all(armed_reads(reads)).monitor.alarm_streak == streak_of(reads),
        board.after_all(armed_reads(reads)).shared.locked <==> run_trips(reads),
    decreases reads.len(),
{
    if reads.len() > 0 {
        let before = reads.drop_last();
        lemma_run_of_reads(board, before);
        assert(armed_reads(reads).drop_last() =~= armed_reads(before));
    }
}

/// Over any run of armed readings from boot on, the interlock is engaged
/// exactly if two readings in a row had one of the six input bits high. The
/// readings before and after do not matter, nor which of the bits it was.
pub proof fn law_reads_lock_the_board(board: Board, reads: Seq<u8>)
    requires
        !board.shared.locked,
        board.monitor.alarm_streak == 0,
    ensures
        board.after_all(armed_reads(reads)).shared.locked <==> exists|i: int|
            0 <= i < reads.len() - 1 && (#[trigger] reads[i]) & 0x3F != 0 && reads[i + 1] & 0x3F
                != 0,
{
    lemma_run_of_reads(board, reads);
    law_two_alarms_in_a_row(reads);
    if run_trips(reads) {
        let i = choose|i: int|
            0 <= i < reads.len() - 1 && #[trigger] is_alarm(reads[i]) && is_alarm(reads[i + 1]);
        law_safe_is_all_low(reads[i]);
        law_safe_is_all_low(reads[i + 1]);
        assert(reads[i] & 0x3F != 0 && reads[i + 1] & 0x3F != 0);
    }
    if exists|i: int|
        0 <= i < reads.len() - 1 && (#[trigger] reads[i]) & 0x3F != 0 && reads[i + 1] & 0x3F != 0 {
        let i = choose|i: int|
            0 <= i < reads.len() - 1 && (#[trigger] reads[i]) & 0x3F != 0 && reads[i + 1] & 0x3F
                != 0;
        law_safe_is_all_low(reads[i]);
        law_safe_is_all_low(reads[i + 1]);
        assert(is_alarm(reads[i]) && is_alarm(reads[i + 1]));
    }
}

/// Two armed readings in a row that show an input open engage the interlock,
/// whatever the board was like before and whatever happens between the two.
pub proof fn law_two_open_readings_lock(
    board: Board,
    first: u8,
    between: Seq<Happening>,
    second: u8,
)
    requires
        first & 0x3F != 0,
        second & 0x3F != 0,
        forall|i: int| 0 <= i < between.len() ==> !(#[trigger] between[i] is Read),
    ensures
        board.after(Happening::Read { raw: first, armed: true }).after_all(between).after(
            Happening::Read { raw: second, armed: true },
        ).shared.locked,
{
    law_safe_is_all_low(first);
    law_safe_is_all_low(second);
    lemma_streak_kept(board.after(Happening::Read { raw: first, armed: true }), between);
}

proof fn lemma_streak_kept(board: Board, between: Seq<Happening>)
    requires
        forall|i: int| 0 <= i < between.len() ==> !(#[trigger] between[i] is Read),
    ensures
        board.after_all(between).monitor == board.monitor,
    decreases between.len(),
{
    if between.len() > 0 {
        let before = between.drop_last();
        assert forall|i: int| 0 <= i < before.len() implies !(#[trigger] before[i] is Read) by {
            assert(before[i] == between[i]);
        }
        lemma_streak_kept(board, before);
        assert(!(between[between.len() - 1] is Read));
    }
}

/// Only two things engage the interlock: an armed reading with an input bit
/// high right after another such reading, and a look that finds a link lost.
pub proof fn law_what_engages(board: Board, happening: Happening)
    requires
        !board.shared.locked,
    ensures
        board.after(happening).shared.locked <==> match happening {
            Happening::Read { raw, armed } => armed && raw & 0x3F != 0
                && board.monitor.alarm_streak >= 1,
            Happening::Look { now_ms, link_up } => loss_at(
                board.shared,
                now_ms as int,
                link_up,
            ) is Some,
            _ => false,
        },
{
    if let Happening::Read { raw, armed } = happening {
        law_safe_is_all_low(raw);
    }
}

/// With the interlock engaged, a reset releases it exactly if the last reading
/// had all six input bits low, whatever happened since that reading.
pub proof fn law_reset_goes_by_the_last_reading(
    board: Board,
    raw: u8,
    armed: bool,
    between: Seq<Happening>,
)
    requires
        forall|i: int| 0 <= i < between.len() ==> !(#[trigger] between[i] is Read),
        board.after(Happening::Read { raw, armed }).after_all(between).shared.locked,
    ensures
        !board.after(Happening::Read { raw, armed }).after_all(between).after(
            Happening::Reset,
        ).shared.locked <==> raw & 0x3F == 0,
{
    lemma_inputs_kept(board.after(Happening::Read { raw, armed }), between);
    law_safe_is_all_low(raw);
}

/// From boot on, with nothing but armed readings, the interlock is engaged
/// exactly if two readings in a row had one of the six input bits high: a single
/// one does not do, be it the first.
pub proof fn law_reads_lock_the_board_from_boot(reads: Seq<u8>)
    ensures
        Board::at_boot().after_all(armed_reads(reads)).shared.locked <==> exists|i: int|
            0 <= i < reads.len() - 1 && (#[trigger] reads[i]) & 0x3F != 0 && reads[i + 1] & 0x3F
                != 0,
{
    law_reads_lock_the_board(Board::at_boot(), reads);
}

} // verus!

//! Relay controller.
//!
//! The bus logic is active-low: a `0` bit energises a relay, a `1` bit releases
//! it. The boot value is `0xFF`, all released.
//!
//! [`Relays::apply`] decides what a command puts on the port and starts a
//! [`RelayJob`]; the caller performs the bus writes and the waits that the job
//! asks for and reports how they went.

use vstd::prelude::*;

use crate::bsp::relay::{BITS, COUNT, IDLE_PORT_VALUE, RELAY_BITS};
use crate::pcf8574::{is_high, with_bit, BusWrite, Pcf8574};
use crate::shared::Shared;

verus! {

/// Time that has to pass between two commands on one channel, in microseconds.
/// Commands that set all channels at once are not held back.
pub const COMMAND_DEBOUNCE_US: u64 = 150_000;

/// Attempts to bring the expander up.
pub const INIT_ATTEMPTS: u8 = 5;

/// Attempts to write a command.
pub const APPLY_ATTEMPTS: u8 = 3;

/// Attempts to write all-off.
pub const APPLY_ATTEMPTS_ALLOFF: u8 = 6;

/// The expander could not be brought up.
#[derive(Debug)]
pub struct InitError;

#[derive(Debug, Clone, Copy, PartialEq, Eq, Structural)]
pub enum RelayCommand {
    SetRelay { index: u8, on: bool },
    SetMask(u8),
    AllOff,
}

/// A number of attempts, at least one.
#[derive(Debug, Clone, Copy)]
pub struct Attempts {
    n: u8,
}

impl Attempts {
    pub closed spec fn count(self) -> u8 {
        self.n
    }

    #[verifier::type_invariant]
    spec fn at_least_one(self) -> bool {
        self.n > 0
    }

    pub fn get(self) -> (n: u8)
        ensures
            n == self.count(),
            n > 0,
    {
        proof {
            use_type_invariant(self);
        }
        self.n
    }
}

/// `n` attempts.
pub fn nz(n: u8) -> (attempts: Attempts)
    requires
        n != 0,
    ensures
        attempts.count() == n,
{
    Attempts { n }
}

/// The relays that `port` energises, bit per relay.
pub open spec fn on_bits(port: u8) -> u8 {
    !port & RELAY_BITS
}

/// The port that has exactly the relays of `mask` energised and the unused
/// bits high.
pub open spec fn mask_port(mask: u8) -> u8 {
    (!mask & RELAY_BITS) | !RELAY_BITS
}

/// Port after one relay was switched, and the bit of that relay if it is now
/// on; `None` if there is no such relay.
pub open spec fn set_result(shadow: u8, index: u8, on: bool) -> Option<(u8, u8)> {
    if index < COUNT {
        Some((with_bit(shadow, index, !on), if on { 1u8 << index } else { 0u8 }))
    } else {
        None
    }
}

/// Relays that are on, as they were last noted.
pub open spec fn relays_on(shared: Shared) -> u8 {
    shared.on_mask
}

/// Relays that are on.
pub fn current_on_mask(shared: &Shared) -> (mask: u8)
    ensures
        mask == shared.on_mask,
        mask == relays_on(*shared),
{
    shared.on_mask
}

fn energised(port: u8) -> (mask: u8)
    ensures
        mask == on_bits(port),
{
    !port & RELAY_BITS
}

/// Port after one relay was switched, and the bit of that relay if it is now
/// on; `None` if there is no such relay.
pub fn apply_set(shadow: u8, index: u8, on: bool) -> (result: Option<(u8, u8)>)
    ensures
        result == (if index < COUNT {
            Some((with_bit(shadow, index, !on), if on { 1u8 << index } else { 0u8 }))
        } else {
            None::<(u8, u8)>
        }),
        result == set_result(shadow, index, on),
{
    if (index as usize) >= COUNT {
        return None;
    }
    let bit: u8 = BITS[index as usize];
    assert(bit == index);
    let mask: u8 = 1u8 << bit;
    let new: u8 = if on {
        shadow & !mask
    } else {
        shadow | mask
    };
    Some((new, if on { mask } else { 0u8 }))
}

/// Port with exactly the relays of `mask` on. Bits beyond the relays are
/// ignored and the unused port bits are high.
pub fn apply_set_mask(mask: u8) -> (port: u8)
    ensures
        port == mask_port(mask),
{
    let active_low: u8 = !mask & RELAY_BITS;
    active_low | !RELAY_BITS
}

/// What a command comes to.
#[derive(Debug, Clone, Copy, PartialEq, Eq, Structural)]
pub enum Plan {
    /// The interlock is engaged: release all relays instead.
    Refuse,
    /// There is no such relay.
    BadIndex,
    /// The channel was switched too recently.
    Debounced,
    /// Drive this byte.
    Drive { port: u8 },
}

/// The channel was switched at `last` and `now` is less than the debounce time
/// later. A clock that went backwards holds nothing back.
pub open spec fn too_soon(last: Option<u64>, now: u64) -> bool {
    match last {
        None => false,
        Some(prev) => prev <= now && now - prev < COMMAND_DEBOUNCE_US,
    }
}

/// What `cmd` comes to on a port at `shadow`, with the channels last switched
/// at `last_change`.
pub open spec fn plan_for(
    shadow: u8,
    last_change: Seq<Option<u64>>,
    cmd: RelayCommand,
    locked: bool,
    now: u64,
) -> Plan {
    if locked && cmd != RelayCommand::AllOff {
        Plan::Refuse
    } else {
        match cmd {
            RelayCommand::SetRelay { index, on } => if index >= COUNT {
                Plan::BadIndex
            } else if too_soon(last_change[index as int], now) {
                Plan::Debounced
            } else {
                Plan::Drive { port: with_bit(shadow, index, !on) }
            },
            RelayCommand::SetMask(mask) => Plan::Drive { port: mask_port(mask) },
            RelayCommand::AllOff => Plan::Drive { port: IDLE_PORT_VALUE },
        }
    }
}

/// A byte on its way to the port.
#[derive(Debug, Clone, Copy, PartialEq, Eq, Structural)]
pub struct Transfer {
    pub cmd: RelayCommand,
    /// The command was refused; the byte releases all relays.
    pub refused: bool,
    pub port: u8,
    /// Attempts that the transfer has in all.
    pub total: u8,
    /// The attempt that is being made, counted from one.
    pub attempt: u8,
}

/// How a command ended. An error is that of the last attempt.
#[derive(Debug, PartialEq)]
pub enum Outcome<E> {
    BadIndex,
    Debounced,
    /// Refused by the interlock; the relays were released, or every attempt to
    /// do so failed.
    Refused { released: Result<(), E> },
    /// The port holds the new byte.
    Applied,
    /// Every attempt failed.
    Failed { error: E },
    /// Every attempt to release the relays failed: only a reset is safe.
    Reset { error: E },
}

/// A command under way, on a bus that fails with `E`.
#[derive(Debug, PartialEq)]
pub enum RelayJob<E> {
    /// The byte is to be written.
    Write(Transfer),
    /// The last attempt failed; the next one comes after a wait.
    Wait(Transfer),
    Done(Outcome<E>),
}

/// What the caller is to do for a job.
#[derive(Debug, PartialEq)]
pub enum RelayStep<'a, E> {
    Write(BusWrite),
    Wait { ms: u64 },
    Done(&'a Outcome<E>),
}

/// The job that a plan starts.
pub open spec fn job_for<E>(plan: Plan, cmd: RelayCommand) -> RelayJob<E> {
    match plan {
        Plan::BadIndex => RelayJob::Done(Outcome::BadIndex),
        Plan::Debounced => RelayJob::Done(Outcome::Debounced),
        Plan::Refuse => RelayJob::Write(
            Transfer {
                cmd,
                refused: true,
                port: IDLE_PORT_VALUE,
                total: APPLY_ATTEMPTS_ALLOFF,
                attempt: 1,
            },
        ),
        Plan::Drive { port } => RelayJob::Write(
            Transfer {
                cmd,
                refused: false,
                port,
                total: if cmd == RelayCommand::AllOff {
                    APPLY_ATTEMPTS_ALLOFF
                } else {
                    APPLY_ATTEMPTS
                },
                attempt: 1,
            },
        ),
    }
}

/// How a transfer ends once its last attempt failed with `error`.
pub open spec fn failure_of<E>(transfer: Transfer, error: E) -> Outcome<E> {
    if transfer.refused {
        Outcome::Refused { released: Err(error) }
    } else if transfer.cmd == RelayCommand::AllOff {
        Outcome::Reset { error }
    } else {
        Outcome::Failed { error }
    }
}

/// How a transfer ends once the byte was written.
pub open spec fn success_of<E>(transfer: Transfer) -> Outcome<E> {
    if transfer.refused {
        Outcome::Refused { released: Ok(()) }
    } else {
        Outcome::Applied
    }
}

/// The job after a write that went well or not.
pub open spec fn after_write<E>(job: RelayJob<E>, written: Result<(), E>) -> RelayJob<E> {
    match job {
        RelayJob::Write(t) => match written {
            Ok(()) => RelayJob::Done(success_of(t)),
            Err(error) => if t.attempt < t.total {
                RelayJob::Wait(t)
            } else {
                RelayJob::Done(failure_of(t, error))
            },
        },
        _ => job,
    }
}

/// `shared` once `port` was written, for a command or because one was refused.
pub open spec fn shared_after_write(shared: Shared, port: u8, refused: bool) -> Shared {
    Shared {
        on_mask: on_bits(port),
        state_changed: shared.state_changed || !refused,
        ..shared
    }
}

/// What the caller is to do for a job, with the expander at `addr`.
pub open spec fn step_of<'a, E>(addr: u8, job: &'a RelayJob<E>) -> RelayStep<'a, E> {
    match *job {
        RelayJob::Write(t) => RelayStep::Write(BusWrite { addr, byte: t.port }),
        RelayJob::Wait(t) => RelayStep::Wait { ms: (10 * t.attempt) as u64 },
        RelayJob::Done(outcome) => RelayStep::Done(&outcome),
    }
}

/// The byte on the port once a job was started or taken up again.
pub open spec fn driven<E>(shadow: u8, job: RelayJob<E>) -> u8 {
    match job {
        RelayJob::Write(t) => t.port,
        _ => shadow,
    }
}

/// When the channels last switched, once `transfer` went through at `now`.
pub open spec fn stamped(last_change: Seq<Option<u64>>, transfer: Transfer, now: u64) -> Seq<
    Option<u64>,
> {
    match transfer.cmd {
        RelayCommand::SetRelay { index, .. } if !transfer.refused && index < COUNT
            => last_change.update(index as int, Some(now)),
        _ => last_change,
    }
}

/// `shared` once a write of `job` ended, with `shadow` on the port.
pub open spec fn noted<E>(
    shared: Shared,
    job: RelayJob<E>,
    written: Result<(), E>,
    shadow: u8,
) -> Shared {
    match job {
        RelayJob::Write(t) if written is Ok => shared_after_write(shared, shadow, t.refused),
        _ => shared,
    }
}

/// Channels that never switched.
pub open spec fn never_switched() -> Seq<Option<u64>> {
    Seq::new(6, |i: int| None::<u64>)
}

/// The job after the wait.
pub open spec fn after_wait<E>(job: RelayJob<E>) -> RelayJob<E> {
    match job {
        RelayJob::Wait(t) => RelayJob::Write(Transfer { attempt: (t.attempt + 1) as u8, ..t }),
        _ => job,
    }
}

impl<E> RelayJob<E> {
    /// No more attempts are made than there are.
    pub open spec fn wf(self) -> bool {
        match self {
            RelayJob::Write(t) => 1 <= t.attempt <= t.total,
            RelayJob::Wait(t) => 1 <= t.attempt < t.total,
            RelayJob::Done(_) => true,
        }
    }
}

pub struct Relays<BUS> {
    pub expander: Pcf8574<BUS>,
    /// When a command on each channel last went through, in microseconds.
    pub last_change: [Option<u64>; 6],
}

/// The expander being brought up.
pub struct RelayInit<BUS> {
    pub expander: Pcf8574<BUS>,
    pub state: InitState,
}

#[derive(Debug, Clone, Copy, PartialEq, Eq, Structural)]
pub enum InitState {
    /// Attempt `attempt` is to be made.
    Write { attempt: u8 },
    /// Attempt `attempt` failed and another one is left.
    Wait { attempt: u8 },
    Ready,
    Failed,
}

#[derive(Debug, Clone, Copy, PartialEq, Eq, Structural)]
pub enum InitStep {
    Write(BusWrite),
    Wait { ms: u64 },
    Done,
}

impl InitState {
    pub open spec fn wf(self) -> bool {
        match self {
            InitState::Write { attempt } => 1 <= attempt <= INIT_ATTEMPTS,
            InitState::Wait { attempt } => 1 <= attempt < INIT_ATTEMPTS,
            _ => true,
        }
    }

    /// The state after a write that went well or not.
    pub open spec fn after_write(self, ok: bool) -> InitState {
        match self {
            InitState::Write { attempt } => if ok {
                InitState::Ready
            } else if attempt < INIT_ATTEMPTS {
                InitState::Wait { attempt }
            } else {
                InitState::Failed
            },
            _ => self,
        }
    }

    /// What the caller is to do, with `byte` for the expander at `addr`.
    pub open spec fn step_of(self, addr: u8, byte: u8) -> InitStep {
        match self {
            InitState::Write { .. } => InitStep::Write(BusWrite { addr, byte }),
            InitState::Wait { attempt } => InitStep::Wait { ms: (20 * attempt) as u64 },
            _ => InitStep::Done,
        }
    }

    /// The state after the wait.
    pub open spec fn after_wait(self) -> InitState {
        match self {
            InitState::Wait { attempt } => InitState::Write { attempt: (attempt + 1) as u8 },
            _ => self,
        }
    }
}

impl<BUS> RelayInit<BUS> {
    /// The bring-up at its start.
    pub open spec fn at_boot(bus: BUS, addr: u8) -> RelayInit<BUS> {
        RelayInit {
            expander: Pcf8574 { bus, addr, shadow: IDLE_PORT_VALUE },
            state: InitState::Write { attempt: 1 },
        }
    }

    /// What to do next.
    pub open spec fn to_do(self) -> InitStep {
        self.state.step_of(self.expander.addr, self.expander.shadow)
    }

    /// The bring-up after a write that went well or not.
    pub open spec fn after_write(self, ok: bool) -> RelayInit<BUS> {
        RelayInit { state: self.state.after_write(ok), ..self }
    }

    /// The bring-up after the wait.
    pub open spec fn after_wait(self) -> RelayInit<BUS> {
        RelayInit { state: self.state.after_wait(), ..self }
    }

    /// What to do next: write the idle byte, or wait 20 ms longer after each
    /// failure.
    pub fn step(&self) -> (step: InitStep)
        requires
            self.state.wf(),
        ensures
            step == (match self.state {
                InitState::Write { .. } => InitStep::Write(
                    BusWrite { addr: self.expander.addr, byte: self.expander.shadow },
                ),
                InitState::Wait { attempt } => InitStep::Wait { ms: (20 * attempt) as u64 },
                _ => InitStep::Done,
            }),
            step == self.to_do(),
    {
        match self.state {
            InitState::Write { .. } => InitStep::Write(self.expander.commit()),
            InitState::Wait { attempt } => InitStep::Wait { ms: 20 * attempt as u64 },
            _ => InitStep::Done,
        }
    }

    /// The write ended.
    pub fn on_write(&mut self, ok: bool)
        requires
            old(self).state.wf(),
        ensures
            final(self).state.wf(),
            *final(self) == (RelayInit { state: old(self).state.after_write(ok), ..*old(self) }),
            *final(self) == old(self).after_write(ok),
    {
        if let InitState::Write { attempt } = self.state {
            self.state = if ok {
                InitState::Ready
            } else if attempt < INIT_ATTEMPTS {
                InitState::Wait { attempt }
            } else {
                InitState::Failed
            };
        }
    }

    /// The wait is over.
    pub fn on_wait(&mut self)
        requires
            old(self).state.wf(),
        ensures
            final(self).state.wf(),
            *final(self) == (RelayInit { state: old(self).state.after_wait(), ..*old(self) }),
            *final(self) == old(self).after_wait(),
    {
        if let InitState::Wait { attempt } = self.state {
            self.state = InitState::Write { attempt: attempt + 1 };
        }
    }

    /// The controller, once the expander took the idle byte.
    pub fn finish(self) -> (relays: Result<Relays<BUS>, InitError>)
        ensures
            relays is Ok <==> self.state == InitState::Ready,
            relays matches Ok(r) ==> {
                &&& r.expander == self.expander
                &&& r.last_change@ == Seq::new(6, |i: int| None::<u64>)
                &&& r.last_change@ == never_switched()
            },
    {
        match self.state {
            InitState::Ready => {
                let last_change: [Option<u64>; 6] = [None, None, None, None, None, None];
                assert(last_change@ =~= Seq::new(6, |i: int| None::<u64>));
                Ok(Relays { expander: self.expander, last_change })
            },
            _ => Err(InitError),
        }
    }
}

impl<BUS> Relays<BUS> {
    /// Start to bring the expander up, with all relays released. If no attempt
    /// succeeds the chip is in an unknown state and no command can be honoured.
    pub fn new(bus: BUS, addr: u8) -> (init: RelayInit<BUS>)
        ensures
            init.expander == (Pcf8574 { bus, addr, shadow: IDLE_PORT_VALUE }),
            init.state == (InitState::Write { attempt: 1 }),
            init == RelayInit::<BUS>::at_boot(bus, addr),
    {
        RelayInit {
            expander: Pcf8574::new(bus, addr, IDLE_PORT_VALUE),
            state: InitState::Write { attempt: 1 },
        }
    }

    pub open spec fn plan(self, cmd: RelayCommand, locked: bool, now: u64) -> Plan {
        plan_for(self.expander.shadow, self.last_change@, cmd, locked, now)
    }

    /// The job that `cmd` starts.
    pub open spec fn job_of<E>(self, cmd: RelayCommand, locked: bool, now: u64) -> RelayJob<E> {
        job_for(self.plan(cmd, locked, now), cmd)
    }

    /// What the caller is to do for a job.
    pub open spec fn step_for<'a, E>(self, job: &'a RelayJob<E>) -> RelayStep<'a, E> {
        step_of(self.expander.addr, job)
    }

    /// `shared` once a write of `job` ended.
    pub open spec fn noted_in<E>(
        self,
        shared: Shared,
        job: RelayJob<E>,
        written: Result<(), E>,
    ) -> Shared {
        noted(shared, job, written, self.expander.shadow)
    }

    fn decide(&self, cmd: RelayCommand, locked: bool, now_us: u64) -> (plan: Plan)
        ensures
            plan == self.plan(cmd, locked, now_us),
    {
        if locked {
            match cmd {
                RelayCommand::AllOff => {},
                _ => {
                    return Plan::Refuse;
                },
            }
        }
        match cmd {
            RelayCommand::SetRelay { index, on } => {
                if (index as usize) >= COUNT {
                    return Plan::BadIndex;
                }
                if let Some(prev) = self.last_change[index as usize] {
                    if prev <= now_us && now_us - prev < COMMAND_DEBOUNCE_US {
                        return Plan::Debounced;
                    }
                }
                match apply_set(self.expander.shadow(), index, on) {
                    Some((port, _)) => Plan::Drive { port },
                    None => Plan::BadIndex,
                }
            },
            RelayCommand::SetMask(mask) => Plan::Drive { port: apply_set_mask(mask) },
            RelayCommand::AllOff => Plan::Drive { port: IDLE_PORT_VALUE },
        }
    }

    /// Start one command. While the interlock is engaged, every command other
    /// than all-off is refused and all relays are released instead.
    pub fn apply<E>(&mut self, cmd: RelayCommand, locked: bool, now_us: u64) -> (job: RelayJob<E>)
        ensures
            job == job_for::<E>(old(self).plan(cmd, locked, now_us), cmd),
            job == old(self).job_of::<E>(cmd, locked, now_us),
            job.wf(),
            final(self).last_change == old(self).last_change,
            final(self).expander == (Pcf8574 {
                shadow: match job {
                    RelayJob::Write(t) => t.port,
                    _ => old(self).expander.shadow,
                },
                ..old(self).expander
            }),
            final(self).expander.shadow == driven(old(self).expander.shadow, job),
    {
        match self.decide(cmd, locked, now_us) {
            Plan::BadIndex => RelayJob::Done(Outcome::BadIndex),
            Plan::Debounced => RelayJob::Done(Outcome::Debounced),
            Plan::Refuse => self.write_with_retry(
                cmd,
                true,
                IDLE_PORT_VALUE,
                nz(APPLY_ATTEMPTS_ALLOFF),
            ),
            Plan::Drive { port } => {
                let attempts = match cmd {
                    RelayCommand::AllOff => nz(APPLY_ATTEMPTS_ALLOFF),
                    _ => nz(APPLY_ATTEMPTS),
                };
                self.write_with_retry(cmd, false, port, attempts)
            },
        }
    }

    /// Start to write `port_byte`.
    fn write_with_retry<E>(
        &mut self,
        cmd: RelayCommand,
        refused: bool,
        port_byte: u8,
        attempts: Attempts,
    ) -> (job: RelayJob<E>)
        ensures
            final(self).last_change == old(self).last_change,
            final(self).expander == (Pcf8574 { shadow: port_byte, ..old(self).expander }),
            attempts.count() > 0,
            job == RelayJob::<E>::Write(
                Transfer { cmd, refused, port: port_byte, total: attempts.count(), attempt: 1 },
            ),
    {
        let _ = self.expander.write_port(port_byte);
        RelayJob::Write(
            Transfer { cmd, refused, port: port_byte, total: attempts.get(), attempt: 1 },
        )
    }

    /// What to do next for a job: write its byte, or wait 10 ms longer after
    /// each failure.
    pub fn step<'a, E>(&self, job: &'a RelayJob<E>) -> (step: RelayStep<'a, E>)
        requires
            job.wf(),
        ensures
            step == (match *job {
                RelayJob::Write(t) => RelayStep::Write(
                    BusWrite { addr: self.expander.addr, byte: t.port },
                ),
                RelayJob::Wait(t) => RelayStep::Wait { ms: (10 * t.attempt) as u64 },
                RelayJob::Done(outcome) => RelayStep::Done(&outcome),
            }),
            step == self.step_for(job),
    {
        match job {
            RelayJob::Write(t) => RelayStep::Write(
                BusWrite { addr: self.expander.addr, byte: t.port },
            ),
            RelayJob::Wait(t) => RelayStep::Wait { ms: 10 * t.attempt as u64 },
            RelayJob::Done(outcome) => RelayStep::Done(outcome),
        }
    }

    /// The write of a job ended. Once it went well, the relays that are on are
    /// noted for the other tasks. Unless the command was refused, they are also
    /// to be published, and the channel that it switched is stamped with
    /// `now_us`.
    pub fn on_write<E>(
        &mut self,
        job: RelayJob<E>,
        written: Result<(), E>,
        now_us: u64,
        shared: &mut Shared,
    ) -> (next: RelayJob<E>)
        requires
            job.wf(),
        ensures
            next == after_write(job, written),
            next.wf(),
            final(self).expander == old(self).expander,
            match job {
                RelayJob::Write(t) if written is Ok => {
                    &&& *final(shared) == shared_after_write(
                        *old(shared),
                        old(self).expander.shadow,
                        t.refused,
                    )
                    &&& final(self).last_change@ == (match t.cmd {
                        RelayCommand::SetRelay { index, .. } if !t.refused && index < COUNT => old(
                            self,
                        ).last_change@.update(index as int, Some(now_us)),
                        _ => old(self).last_change@,
                    })
                    &&& final(self).last_change@ == stamped(old(self).last_change@, t, now_us)
                },
                _ => *final(shared) == *old(shared) && final(self).last_change == old(
                    self,
                ).last_change,
            },
            *final(shared) == old(self).noted_in(*old(shared), job, written),
    {
        match job {
            RelayJob::Write(t) => match written {
                Ok(()) => {
                    shared.on_mask = energised(self.expander.shadow());
                    if t.refused {
                        return RelayJob::Done(Outcome::Refused { released: Ok(()) });
                    }
                    shared.state_changed = true;
                    if let RelayCommand::SetRelay { index, .. } = t.cmd {
                        if (index as usize) < COUNT {
                            self.last_change[index as usize] = Some(now_us);
                        }
                    }
                    RelayJob::Done(Outcome::Applied)
                },
                Err(error) => if t.attempt < t.total {
                    RelayJob::Wait(t)
                } else if t.refused {
                    RelayJob::Done(Outcome::Refused { released: Err(error) })
                } else {
                    match t.cmd {
                        RelayCommand::AllOff => RelayJob::Done(Outcome::Reset { error }),
                        _ => RelayJob::Done(Outcome::Failed { error }),
                    }
                },
            },
            _ => job,
        }
    }

    /// The wait of a job is over: the byte is driven again.
    pub fn on_wait<E>(&mut self, job: RelayJob<E>) -> (next: RelayJob<E>)
        requires
            job.wf(),
        ensures
            next == after_wait(job),
            next.wf(),
            final(self).last_change == old(self).last_change,
            final(self).expander == (Pcf8574 {
                shadow: match job {
                    RelayJob::Wait(t) => t.port,
                    _ => old(self).expander.shadow,
                },
                ..old(self).expander
            }),
            job is Wait ==> final(self).expander.shadow == driven(old(self).expander.shadow, next),
    {
        match job {
            RelayJob::Wait(t) => {
                let _ = self.expander.write_port(t.port);
                RelayJob::Write(Transfer { attempt: t.attempt + 1, ..t })
            },
            _ => job,
        }
    }
}

/// While the interlock is engaged, whatever the command, the only byte that
/// goes to the port is the one that releases every relay.
pub proof fn law_locked_releases_all<E>(
    shadow: u8,
    last_change: Seq<Option<u64>>,
    cmd: RelayCommand,
    now: u64,
)
    ensures
        match job_for::<E>(plan_for(shadow, last_change, cmd, true, now), cmd) {
            RelayJob::Write(t) => t.port == IDLE_PORT_VALUE && on_bits(t.port) == 0,
            _ => false,
        },
{
    assert(on_bits(0xFF) == 0) by (bit_vector);
}

/// A command that sets all channels gives exactly the relays of its mask, and
/// bits beyond the relays do not matter.
pub proof fn law_mask_is_exact(mask: u8, beyond: u8)
    ensures
        on_bits(mask_port(mask)) == mask & RELAY_BITS,
        mask_port(mask | (beyond & !RELAY_BITS)) == mask_port(mask),
{
    assert({
        &&& on_bits(mask_port(mask)) == mask & RELAY_BITS
        &&& mask_port(mask | (beyond & !RELAY_BITS)) == mask_port(mask)
    }) by (bit_vector);
}

/// A command on one channel switches that relay and no other.
pub proof fn law_set_switches_one_relay(shadow: u8, index: u8, on: bool, other: u8)
    requires
        index < COUNT,
        other < COUNT,
    ensures
        is_high(on_bits(with_bit(shadow, index, !on)), index) == on,
        other != index ==> is_high(on_bits(with_bit(shadow, index, !on)), other) == is_high(
            on_bits(shadow),
            other,
        ),
{
    assert({
        &&& is_high(on_bits(with_bit(shadow, index, !on)), index) == on
        &&& other != index ==> is_high(on_bits(with_bit(shadow, index, !on)), other) == is_high(
            on_bits(shadow),
            other,
        )
    }) by (bit_vector)
        requires
            index < 6,
            other < 6,
    ;
}

/// The port bits that drive no relay stay high: they are at boot, and no
/// command pulls one down.
pub proof fn law_unused_bits_stay_high<E>(
    shadow: u8,
    last_change: Seq<Option<u64>>,
    cmd: RelayCommand,
    locked: bool,
    now: u64,
)
    requires
        shadow | RELAY_BITS == 0xFF,
    ensures
        IDLE_PORT_VALUE | RELAY_BITS == 0xFF,
        match job_for::<E>(plan_for(shadow, last_change, cmd, locked, now), cmd) {
            RelayJob::Write(t) => t.port | RELAY_BITS == 0xFF,
            _ => true,
        },
{
    assert(0xFFu8 | 0x3Fu8 == 0xFF) by (bit_vector);
    match cmd {
        RelayCommand::SetRelay { index, on } => {
            if index < COUNT {
                assert(with_bit(shadow, index, !on) | 0x3Fu8 == 0xFF) by (bit_vector)
                    requires
                        index < 6,
                        shadow | 0x3Fu8 == 0xFF,
                ;
            }
        },
        RelayCommand::SetMask(mask) => {
            assert(mask_port(mask) | 0x3Fu8 == 0xFF) by (bit_vector);
        },
        RelayCommand::AllOff => {},
    }
}

/// A channel that was just switched takes no command until the debounce time
/// has passed, and takes one from then on. Commands for all channels are never
/// held back.
pub proof fn law_debounce(
    shadow: u8,
    last_change: Seq<Option<u64>>,
    index: u8,
    on: bool,
    mask: u8,
    switched: u64,
    now: u64,
)
    requires
        last_change.len() == COUNT,
        index < COUNT,
        switched <= now,
    ensures
        ({
            let stamped = last_change.update(index as int, Some(switched));
            let again = plan_for(
                shadow,
                stamped,
                RelayCommand::SetRelay { index, on },
                false,
                now,
            );
            &&& again == Plan::Debounced <==> now - switched < COMMAND_DEBOUNCE_US
            &&& plan_for(shadow, stamped, RelayCommand::SetMask(mask), false, now) is Drive
            &&& plan_for(shadow, stamped, RelayCommand::AllOff, false, now) is Drive
        }),
{
}

/// A job after the writes ended as `replies` say, every wait being waited out.
pub open spec fn pursued<E>(job: RelayJob<E>, replies: Seq<Result<(), E>>) -> RelayJob<E>
    decreases replies.len(),
{
    if replies.len() == 0 {
        job
    } else {
        pursued(after_wait(after_write(job, replies[0])), replies.drop_first())
    }
}

/// A transfer ends well with the first write that goes well, and badly exactly
/// when all its attempts failed, with the error of the last one. The byte is
/// the same in every attempt.
pub proof fn law_transfer_uses_all_attempts<E>(transfer: Transfer, failed: Seq<Result<(), E>>)
    requires
        1 <= transfer.attempt <= transfer.total,
        transfer.attempt + failed.len() <= transfer.total + 1,
        forall|i: int| 0 <= i < failed.len() ==> #[trigger] failed[i] is Err,
    ensures
        ({
            let after = pursued(RelayJob::Write(transfer), failed);
            if transfer.attempt + failed.len() <= transfer.total {
                &&& after == RelayJob::<E>::Write(
                    Transfer { attempt: (transfer.attempt + failed.len()) as u8, ..transfer },
                )
                &&& pursued(RelayJob::Write(transfer), failed.push(Ok(()))) == RelayJob::<E>::Done(
                    success_of(transfer),
                )
            } else {
                after == RelayJob::Done(failure_of(transfer, failed.last()->Err_0))
            }
        }),
    decreases failed.len(),
{
    if failed.len() == 0 {
        assert(failed.push(Ok(())).drop_first() =~= Seq::empty());
        reveal_with_fuel(pursued, 2);
    } else {
        let rest = failed.drop_first();
        assert(failed[0] is Err);
        assert(failed.push(Ok(())).drop_first() =~= rest.push(Ok(())));
        assert forall|i: int| 0 <= i < rest.len() implies #[trigger] rest[i] is Err by {
            assert(rest[i] == failed[i + 1]);
        }
        if transfer.attempt < transfer.total {
            law_transfer_uses_all_attempts(
                Transfer { attempt: (transfer.attempt + 1) as u8, ..transfer },
                rest,
            );
        } else {
            assert(rest =~= Seq::empty());
            reveal_with_fuel(pursued, 2);
        }
    }
}

/// The state of a bring-up after the write attempts went as `replies` say, with
/// the wait in between.
pub open spec fn brought_up(replies: Seq<bool>) -> InitState
    decreases replies.len(),
{
    if replies.len() == 0 {
        InitState::Write { attempt: 1 }
    } else {
        brought_up(replies.drop_last()).after_wait().after_write(replies.last())
    }
}

/// The bring-up is given up after five failed writes and not before, and a
/// write that went well ends it at once.
pub proof fn law_bring_up_uses_all_attempts(failures: nat)
    requires
        failures <= INIT_ATTEMPTS,
    ensures
        ({
            let replies = Seq::new(failures, |i: int| false);
            &&& brought_up(replies) == (if failures == 0 {
                InitState::Write { attempt: 1 }
            } else if failures < INIT_ATTEMPTS {
                InitState::Wait { attempt: failures as u8 }
            } else {
                InitState::Failed
            })
            &&& failures < INIT_ATTEMPTS ==> brought_up(replies.push(true)) == InitState::Ready
        }),
    decreases failures,
{
    let replies = Seq::new(failures, |i: int| false);
    assert(replies.push(true).drop_last() =~= replies);
    if failures > 0 {
        let before = Seq::new((failures - 1) as nat, |i: int| false);
        law_bring_up_uses_all_attempts((failures - 1) as nat);
        assert(replies.drop_last() =~= before);
    }
}

/// An accepted command on one channel drives a byte that pulls the bit of that
/// relay low exactly if the relay is to be on, and agrees with the byte that was
/// on the port in every other bit. It is accepted unless the channel switched
/// less than 150 ms before.
pub proof fn law_command_switches_its_relay_alone<BUS, E>(
    relays: Relays<BUS>,
    index: u8,
    on: bool,
    now: u64,
    other: u8,
)
    requires
        index < 6,
        other < 8,
        relays.last_change@[index as int] matches Some(last) ==> now < last || now - last
            >= 150_000,
    ensures
        ({
            let shadow = relays.expander.shadow;
            let cmd = RelayCommand::SetRelay { index, on };
            let job = relays.job_of::<E>(cmd, false, now);
            let port = driven(shadow, job);
            &&& job matches RelayJob::Write(t) && t.cmd == cmd && !t.refused && t.port == port
            &&& port & (1u8 << index) == 0 <==> on
            &&& other != index ==> port & (1u8 << other) == shadow & (1u8 << other)
            &&& index != other && other < 6 ==> is_high(on_bits(port), other) == is_high(
                on_bits(shadow),
                other,
            )
            &&& is_high(on_bits(port), index) == on
        }),
{
    let shadow = relays.expander.shadow;
    assert({
        let port = with_bit(shadow, index, !on);
        &&& port & (1u8 << index) == 0 <==> on
        &&& other != index ==> port & (1u8 << other) == shadow & (1u8 << other)
        &&& index != other && other < 6 ==> is_high(on_bits(port), other) == is_high(
            on_bits(shadow),
            other,
        )
        &&& is_high(on_bits(port), index) == on
    }) by (bit_vector)
        requires
            index < 6,
            other < 8,
    ;
}

/// Commands on two channels do not disturb each other: after both, each relay
/// is as its own command said, in whichever order they came.
pub proof fn law_commands_on_two_relays_add_up<BUS, E>(
    relays: Relays<BUS>,
    later: Relays<BUS>,
    first: u8,
    first_on: bool,
    second: u8,
    second_on: bool,
    now: u64,
    next: u64,
)
    requires
        first < 6,
        second < 6,
        first != second,
        relays.last_change@[first as int] is None,
        later.last_change@[second as int] is None,
        ({
            let cmd = RelayCommand::SetRelay { index: first, on: first_on };
            later.expander.shadow == driven(
                relays.expander.shadow,
                relays.job_of::<E>(cmd, false, now),
            )
        }),
    ensures
        ({
            let cmd = RelayCommand::SetRelay { index: second, on: second_on };
            let job = later.job_of::<E>(cmd, false, next);
            let port = driven(later.expander.shadow, job);
            &&& port & (1u8 << first) == 0 <==> first_on
            &&& port & (1u8 << second) == 0 <==> second_on
        }),
{
    law_command_switches_its_relay_alone::<BUS, E>(relays, first, first_on, now, second);
    law_command_switches_its_relay_alone::<BUS, E>(later, second, second_on, next, first);
}

/// A command for all channels pulls exactly the bits of its mask low, whatever
/// was on the port before, and keeps the two bits that drive no relay high.
pub proof fn law_mask_command_sets_every_relay<BUS, E>(
    relays: Relays<BUS>,
    mask: u8,
    now: u64,
    relay: u8,
)
    requires
        relay < 6,
    ensures
        ({
            let cmd = RelayCommand::SetMask(mask);
            let job = relays.job_of::<E>(cmd, false, now);
            let port = driven(relays.expander.shadow, job);
            &&& job matches RelayJob::Write(t) && t.cmd == cmd && !t.refused && t.port == port
            &&& port & (1u8 << relay) == 0 <==> mask & (1u8 << relay) != 0
            &&& port & 0xC0 == 0xC0
        }),
{
    assert({
        &&& mask_port(mask) & (1u8 << relay) == 0 <==> mask & (1u8 << relay) != 0
        &&& mask_port(mask) & 0xC0 == 0xC0
    }) by (bit_vector)
        requires
            relay < 6,
    ;
}

/// All-off always drives the byte that releases every relay, engaged interlock
/// or not; any other command does so while the interlock is engaged, and is
/// marked as refused.
pub proof fn law_release_is_never_held_back<BUS, E>(
    relays: Relays<BUS>,
    cmd: RelayCommand,
    locked: bool,
    now: u64,
)
    requires
        locked || cmd == RelayCommand::AllOff,
    ensures
        relays.job_of::<E>(cmd, locked, now) matches RelayJob::Write(t) && t.cmd == cmd
            && t.port == 0xFF && t.total == 6 && t.attempt == 1 && (t.refused <==> cmd
            != RelayCommand::AllOff),
{
}

/// A command other than all-off has three attempts, and with the interlock
/// released nothing but a bad index or a channel that switched less than 150 ms
/// before keeps it off the port.
pub proof fn law_what_keeps_a_command_off_the_port<BUS, E>(
    relays: Relays<BUS>,
    cmd: RelayCommand,
    now: u64,
)
    requires
        cmd != RelayCommand::AllOff,
    ensures
        match relays.job_of::<E>(cmd, false, now) {
            RelayJob::Write(t) => t.total == 3 && t.attempt == 1 && !t.refused && t.cmd == cmd,
            RelayJob::Wait(_) => false,
            RelayJob::Done(Outcome::BadIndex) => cmd matches RelayCommand::SetRelay { index, .. }
                && index >= 6,
            RelayJob::Done(Outcome::Debounced) => cmd matches RelayCommand::SetRelay { index, .. }
                && index < 6 && relays.last_change@[index as int] is Some && 0 <= now
                - relays.last_change@[index as int].unwrap() < 150_000,
            _ => false,
        },
        cmd matches RelayCommand::SetRelay { index, .. } && index >= 6 ==> relays.job_of::<E>(
            cmd,
            false,
            now,
        ) == RelayJob::<E>::Done(Outcome::BadIndex),
        cmd matches RelayCommand::SetRelay { index, .. } && index < 6
            && relays.last_change@[index as int] is Some && 0 <= now
            - relays.last_change@[index as int].unwrap() < 150_000 ==> relays.job_of::<E>(
            cmd,
            false,
            now,
        ) == RelayJob::<E>::Done(Outcome::Debounced),
{
}

/// What goes through is noted: bit `i` of the mask is set exactly if the port
/// pulls bit `i` low, the bits beyond the relays are clear, and nothing else of
/// the shared state changes but the note to publish, which a refused command
/// does not make.
pub proof fn law_note_matches_the_port(shared: Shared, port: u8, refused: bool, relay: u8)
    requires
        relay < 6,
    ensures
        ({
            let after = shared_after_write(shared, port, refused);
            &&& after.on_mask & (1u8 << relay) != 0 <==> port & (1u8 << relay) == 0
            &&& after.on_mask < 64
            &&& after.state_changed <==> shared.state_changed || !refused
            &&& after.locked == shared.locked
            &&& after.changed == shared.changed
            &&& after.input_mask == shared.input_mask
            &&& after.mqtt_last_ok_ms == shared.mqtt_last_ok_ms
            &&& after.wifi_last_ok_ms == shared.wifi_last_ok_ms
        }),
{
    assert({
        &&& on_bits(port) & (1u8 << relay) != 0 <==> port & (1u8 << relay) == 0
        &&& on_bits(port) < 64
    }) by (bit_vector)
        requires
            relay < 6,
    ;
}

/// Only a command on one channel that went through stamps a channel, and only
/// its own.
pub proof fn law_only_the_switched_channel_is_stamped(
    last_change: Seq<Option<u64>>,
    transfer: Transfer,
    now: u64,
    channel: int,
)
    requires
        last_change.len() == 6,
        0 <= channel < 6,
    ensures
        stamped(last_change, transfer, now).len() == 6,
        stamped(last_change, transfer, now)[channel] == (if !transfer.refused && (
        transfer.cmd matches RelayCommand::SetRelay { index, .. } && index == channel) {
            Some(now)
        } else {
            last_change[channel]
        }),
{
}

/// How a transfer ends: one that was written is applied, or refused with the
/// relays released; one that failed for good calls for a reset if it was to
/// release the relays on command.
pub proof fn law_outcomes<E>(transfer: Transfer, error: E)
    ensures
        success_of::<E>(transfer) == (if transfer.refused {
            Outcome::<E>::Refused { released: Ok(()) }
        } else {
            Outcome::Applied
        }),
        failure_of(transfer, error) is Reset <==> !transfer.refused && transfer.cmd
            == RelayCommand::AllOff,
        failure_of(transfer, error) is Refused <==> transfer.refused,
        failure_of(transfer, error) is Failed <==> !transfer.refused && transfer.cmd
            != RelayCommand::AllOff,
        match failure_of(transfer, error) {
            Outcome::Reset { error: e } => e == error,
            Outcome::Failed { error: e } => e == error,
            Outcome::Refused { released } => released == Err::<(), E>(error),
            _ => false,
        },
{
}

/// A job asks for its byte to be written at the expander as long as an attempt
/// is to be made, and for ten milliseconds per failed attempt in between. The
/// bring-up does the same with the byte of the expander and twenty, and the
/// expander stays as it is all along.
pub proof fn law_attempts_are_spaced_out<BUS, E>(
    relays: Relays<BUS>,
    transfer: Transfer,
    outcome: Outcome<E>,
    init: RelayInit<BUS>,
    ok: bool,
)
    ensures
        relays.step_for(&RelayJob::<E>::Write(transfer)) == RelayStep::<E>::Write(
            BusWrite { addr: relays.expander.addr, byte: transfer.port },
        ),
        relays.step_for(&RelayJob::<E>::Wait(transfer)) matches RelayStep::Wait { ms } && ms
            == transfer.attempt * 10,
        relays.step_for(&RelayJob::<E>::Done(outcome)) == RelayStep::<E>::Done(&outcome),
        init.state is Write ==> init.to_do() == InitStep::Write(
            BusWrite { addr: init.expander.addr, byte: init.expander.shadow },
        ),
        init.state matches InitState::Wait { attempt } ==> (
        init.to_do() matches InitStep::Wait { ms } && ms == attempt * 20),
        init.state == InitState::Ready || init.state == InitState::Failed ==> init.to_do()
            == InitStep::Done,
        init.after_write(ok).expander == init.expander,
        init.after_wait().expander == init.expander,
{
}

/// Switching one relay gives the port with only the bit of that relay moved,
/// low exactly if the relay is on, and with it that bit if it is on and nothing
/// if it is off; a relay that there is not gives nothing.
pub proof fn law_set_result_moves_one_bit(shadow: u8, index: u8, on: bool, other: u8)
    requires
        other < 8,
    ensures
        set_result(shadow, index, on) is Some <==> index < 6,
        set_result(shadow, index, on) matches Some(result) ==> {
            &&& result.0 & (1u8 << index) == 0 <==> on
            &&& other != index ==> result.0 & (1u8 << other) == shadow & (1u8 << other)
            &&& result.1 & (1u8 << other) != 0 <==> on && other == index
        },
{
    if index < COUNT {
        let bit = if on {
            1u8 << index
        } else {
            0u8
        };
        assert({
            let port = with_bit(shadow, index, !on);
            &&& port & (1u8 << index) == 0 <==> on
            &&& other != index ==> port & (1u8 << other) == shadow & (1u8 << other)
            &&& (1u8 << index) & (1u8 << other) != 0 <==> other == index
            &&& 0u8 & (1u8 << other) == 0
        }) by (bit_vector)
            requires
                index < 6,
                other < 8,
        ;
    }
}

/// Other tasks are told of the byte on the port exactly once it was written: a
/// relay is noted as on exactly if its bit is then low. A write that failed, and
/// a job that had nothing to write, tell nothing.
pub proof fn law_only_writes_are_noted<BUS, E>(
    relays: Relays<BUS>,
    shared: Shared,
    job: RelayJob<E>,
    written: Result<(), E>,
    relay: u8,
)
    requires
        relay < 6,
    ensures
        job is Write && written is Ok ==> {
            let after = relays.noted_in(shared, job, written);
            &&& after == shared_after_write(shared, relays.expander.shadow, job->Write_0.refused)
            &&& after.on_mask & (1u8 << relay) != 0 <==> relays.expander.shadow & (1u8 << relay)
                == 0
        },
        !(job is Write) || written is Err ==> relays.noted_in(shared, job, written) == shared,
{
    law_note_matches_the_port(shared, relays.expander.shadow, false, relay);
    law_note_matches_the_port(shared, relays.expander.shadow, true, relay);
}

/// The bring-up starts by writing the byte that releases every relay to the
/// expander, and a board that came up takes a command on every channel at any
/// time.
pub proof fn law_board_comes_up_released<BUS, E>(
    bus: BUS,
    addr: u8,
    relays: Relays<BUS>,
    index: u8,
    on: bool,
    now: u64,
)
    requires
        index < 6,
        relays.last_change@ == never_switched(),
    ensures
        ({
            let init = RelayInit::<BUS>::at_boot(bus, addr);
            &&& init.expander.shadow == 0xFF
            &&& init.expander.addr == addr
            &&& init.to_do() == InitStep::Write(BusWrite { addr, byte: 0xFF })
        }),
        ({
            let cmd = RelayCommand::SetRelay { index, on };
            relays.job_of::<E>(cmd, false, now) is Write
        }),
{
}

/// The relays that are known to be on are those that the last byte on the port
/// energises.
pub proof fn law_known_relays_are_those_on_the_port(
    shared: Shared,
    port: u8,
    refused: bool,
    relay: u8,
)
    requires
        relay < 6,
    ensures
        relays_on(shared_after_write(shared, port, refused)) & (1u8 << relay) != 0 <==> port & (1u8
            << relay) == 0,
        relays_on(shared_after_write(shared, port, refused)) < 64,
{
    law_note_matches_the_port(shared, port, refused, relay);
}

} // verus!

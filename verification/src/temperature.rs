//! Pt100 sampling task.
//!
//! Sensor cables get pulled in the field, so faults are tolerated, with bounded
//! noise on the log: a failed bring-up is tried again once a minute, and of a
//! steady run of errors only the first and every thirtieth is reported.

use vstd::prelude::*;

use crate::bsp::max31865::SAMPLE_PERIOD_MS;

verus! {

/// Time between two attempts to bring the sensor up.
pub const INIT_RETRY_MS: u64 = 60_000;

/// Of a run of errors, one in so many is reported.
pub const ERROR_LOG_PERIOD_TICKS: u32 = 30;

/// Where the sampling task is.
#[derive(Debug, Clone, Copy, PartialEq, Eq, Structural)]
pub enum Phase {
    Init,
    InitRetry,
    Sample,
    Pause,
}

#[derive(Debug, Clone, Copy, PartialEq, Eq, Structural)]
pub struct TemperatureTask {
    pub phase: Phase,
    /// Errors since the last good sample, saturating.
    pub consecutive_errors: u32,
}

/// What the sampling task is to do.
#[derive(Debug, Clone, Copy, PartialEq, Eq, Structural)]
pub enum TemperatureAction {
    InitSensor,
    ReadSensor,
    Wait { ms: u64 },
}

/// How an action ended.
#[derive(Debug, Clone, Copy, PartialEq, Eq, Structural)]
pub enum TemperatureEvent {
    /// The sensor came up, or it did not.
    Initialised(bool),
    /// A sample within the range of the sensor.
    Sampled,
    /// A resistance that stands for no temperature.
    OutOfRange,
    /// The sensor reported a fault or the bus failed.
    ReadFailed,
    /// The wait is over.
    Waited,
}

/// What is to be told.
#[derive(Debug, Clone, Copy, PartialEq, Eq, Structural)]
pub enum TemperatureReport {
    Nothing,
    /// The sample is to be published; it ended a run of so many errors.
    Publish { recovered_after: u32 },
    /// The so-manieth error in a row is to be reported.
    Warn { errors: u32 },
}

/// The error count after one more error.
pub open spec fn one_more(errors: u32) -> u32 {
    if errors == 0xFFFF_FFFF {
        errors
    } else {
        (errors + 1) as u32
    }
}

/// The error with this count in its run is reported.
pub open spec fn is_reported(errors: u32) -> bool {
    errors == 1 || errors % ERROR_LOG_PERIOD_TICKS == 0
}

impl TemperatureTask {
    pub fn new() -> (task: Self)
        ensures
            task == (TemperatureTask { phase: Phase::Init, consecutive_errors: 0 }),
    {
        TemperatureTask { phase: Phase::Init, consecutive_errors: 0 }
    }

    pub open spec fn to_do(self) -> TemperatureAction {
        match self.phase {
            Phase::Init => TemperatureAction::InitSensor,
            Phase::InitRetry => TemperatureAction::Wait { ms: INIT_RETRY_MS },
            Phase::Sample => TemperatureAction::ReadSensor,
            Phase::Pause => TemperatureAction::Wait { ms: SAMPLE_PERIOD_MS },
        }
    }

    /// What to do now.
    pub fn action(&self) -> (action: TemperatureAction)
        ensures
            action == (match self.phase {
                Phase::Init => TemperatureAction::InitSensor,
                Phase::InitRetry => TemperatureAction::Wait { ms: INIT_RETRY_MS },
                Phase::Sample => TemperatureAction::ReadSensor,
                Phase::Pause => TemperatureAction::Wait { ms: SAMPLE_PERIOD_MS },
            }),
            action == self.to_do(),
    {
        match self.phase {
            Phase::Init => TemperatureAction::InitSensor,
            Phase::InitRetry => TemperatureAction::Wait { ms: INIT_RETRY_MS },
            Phase::Sample => TemperatureAction::ReadSensor,
            Phase::Pause => TemperatureAction::Wait { ms: SAMPLE_PERIOD_MS },
        }
    }

    /// The task and its report after an event. An event that does not belong
    /// to the phase changes nothing.
    pub open spec fn next(self, event: TemperatureEvent) -> (TemperatureTask, TemperatureReport) {
        match (self.phase, event) {
            (Phase::Init, TemperatureEvent::Initialised(ok)) => (
                TemperatureTask {
                    phase: if ok {
                        Phase::Sample
                    } else {
                        Phase::InitRetry
                    },
                    ..self
                },
                TemperatureReport::Nothing,
            ),
            (Phase::InitRetry, TemperatureEvent::Waited) => (
                TemperatureTask { phase: Phase::Init, ..self },
                TemperatureReport::Nothing,
            ),
            (Phase::Sample, TemperatureEvent::Sampled) => (
                TemperatureTask { phase: Phase::Pause, consecutive_errors: 0 },
                TemperatureReport::Publish { recovered_after: self.consecutive_errors },
            ),
            (Phase::Sample, TemperatureEvent::OutOfRange) => self.failed(),
            (Phase::Sample, TemperatureEvent::ReadFailed) => self.failed(),
            (Phase::Pause, TemperatureEvent::Waited) => (
                TemperatureTask { phase: Phase::Sample, ..self },
                TemperatureReport::Nothing,
            ),
            _ => (self, TemperatureReport::Nothing),
        }
    }

    pub open spec fn failed(self) -> (TemperatureTask, TemperatureReport) {
        let errors = one_more(self.consecutive_errors);
        (
            TemperatureTask { phase: Phase::Pause, consecutive_errors: errors },
            if is_reported(errors) {
                TemperatureReport::Warn { errors }
            } else {
                TemperatureReport::Nothing
            },
        )
    }

    fn on_error(&mut self) -> (report: TemperatureReport)
        ensures
            (*final(self), report) == old(self).failed(),
    {
        self.phase = Phase::Pause;
        self.consecutive_errors = self.consecutive_errors.saturating_add(1);
        if self.consecutive_errors == 1 || self.consecutive_errors % ERROR_LOG_PERIOD_TICKS == 0 {
            TemperatureReport::Warn { errors: self.consecutive_errors }
        } else {
            TemperatureReport::Nothing
        }
    }

    /// An action ended.
    pub fn advance(&mut self, event: TemperatureEvent) -> (report: TemperatureReport)
        ensures
            (*final(self), report) == old(self).next(event),
    {
        match (self.phase, event) {
            (Phase::Init, TemperatureEvent::Initialised(ok)) => {
                self.phase = if ok {
                    Phase::Sample
                } else {
                    Phase::InitRetry
                };
                TemperatureReport::Nothing
            },
            (Phase::InitRetry, TemperatureEvent::Waited) => {
                self.phase = Phase::Init;
                TemperatureReport::Nothing
            },
            (Phase::Sample, TemperatureEvent::Sampled) => {
                let recovered_after: u32 = self.consecutive_errors;
                self.phase = Phase::Pause;
                self.consecutive_errors = 0;
                TemperatureReport::Publish { recovered_after }
            },
            (Phase::Sample, TemperatureEvent::OutOfRange) => self.on_error(),
            (Phase::Sample, TemperatureEvent::ReadFailed) => self.on_error(),
            (Phase::Pause, TemperatureEvent::Waited) => {
                self.phase = Phase::Sample;
                TemperatureReport::Nothing
            },
            _ => TemperatureReport::Nothing,
        }
    }
}

/// Reports that a run of `errors` errors makes, after `before` earlier ones in
/// the same run.
pub open spec fn reports_in_run(before: u32, errors: nat) -> nat
    decreases errors,
{
    if errors == 0 {
        0
    } else {
        let count = one_more(before);
        (if is_reported(count) {
            1nat
        } else {
            0nat
        }) + reports_in_run(count, (errors - 1) as nat)
    }
}

/// Of a steady run of errors the first is reported and then one in thirty.
pub proof fn law_error_log_is_bounded(errors: nat)
    requires
        errors < 0xFFFF_FFFF,
    ensures
        reports_in_run(0, errors) == (if errors == 0 {
            0nat
        } else {
            1 + errors / ERROR_LOG_PERIOD_TICKS as nat
        }),
{
    if errors > 0 {
        lemma_reports_after(1, (errors - 1) as nat);
    }
}

proof fn lemma_reports_after(before: u32, errors: nat)
    requires
        1 <= before,
        before + errors < 0xFFFF_FFFF,
    ensures
        reports_in_run(before, errors) == (before + errors) / ERROR_LOG_PERIOD_TICKS as int
            - before as int / ERROR_LOG_PERIOD_TICKS as int,
    decreases errors,
{
    if errors > 0 {
        lemma_reports_after((before + 1) as u32, (errors - 1) as nat);
    }
}

/// Only a sample within range is published.
pub proof fn law_only_samples_are_published(task: TemperatureTask, event: TemperatureEvent)
    ensures
        task.next(event).1 is Publish <==> task.phase == Phase::Sample && event
            == TemperatureEvent::Sampled,
{
}

/// The task after `errors` readings in a row that gave no temperature, each out
/// of range or failed as `out_of_range` says, with the pauses in between.
pub open spec fn after_errors(task: TemperatureTask, out_of_range: Seq<bool>) -> TemperatureTask
    decreases out_of_range.len(),
{
    if out_of_range.len() == 0 {
        task
    } else {
        let event = if out_of_range.last() {
            TemperatureEvent::OutOfRange
        } else {
            TemperatureEvent::ReadFailed
        };
        after_errors(task, out_of_range.drop_last()).next(event).0.next(TemperatureEvent::Waited).0
    }
}

/// However the readings of a run fail, the sample that ends it is published
/// with their number, and the count starts over.
pub proof fn law_recovery_counts_the_errors(out_of_range: Seq<bool>)
    requires
        out_of_range.len() < 0xFFFF_FFFF,
    ensures
        ({
            let start = TemperatureTask { phase: Phase::Sample, consecutive_errors: 0 };
            let task = after_errors(start, out_of_range);
            let (after, report) = task.next(TemperatureEvent::Sampled);
            &&& task.to_do() == TemperatureAction::ReadSensor
            &&& report matches TemperatureReport::Publish { recovered_after } && recovered_after
                == out_of_range.len()
            &&& after.consecutive_errors == 0
            &&& after.to_do() == (TemperatureAction::Wait { ms: 1_000 })
            &&& after.next(TemperatureEvent::Waited).0 == start
        }),
    decreases out_of_range.len(),
{
    if out_of_range.len() > 0 {
        law_recovery_counts_the_errors(out_of_range.drop_last());
    }
}

/// The first error of a run is reported and then every thirtieth, with its
/// number; the others are not.
pub proof fn law_errors_are_reported_by_number(out_of_range: Seq<bool>, event: TemperatureEvent)
    requires
        out_of_range.len() < 0xFFFF_FFFE,
        event == TemperatureEvent::OutOfRange || event == TemperatureEvent::ReadFailed,
    ensures
        ({
            let start = TemperatureTask { phase: Phase::Sample, consecutive_errors: 0 };
            let number = out_of_range.len() + 1int;
            let report = after_errors(start, out_of_range).next(event).1;
            if number == 1 || number % 30 == 0 {
                report matches TemperatureReport::Warn { errors } && errors == number
            } else {
                report == TemperatureReport::Nothing
            }
        }),
{
    law_recovery_counts_the_errors(out_of_range);
}

/// The sensor is brought up before it is read, and tried again after a minute
/// where it does not come up. An event that answers something else changes
/// nothing.
pub proof fn law_sensor_is_brought_up(task: TemperatureTask, event: TemperatureEvent)
    ensures
        task.phase == Phase::Init ==> task.to_do() == TemperatureAction::InitSensor && task.next(
            TemperatureEvent::Initialised(true),
        ).0.to_do() == TemperatureAction::ReadSensor && task.next(
            TemperatureEvent::Initialised(false),
        ).0.to_do() == (TemperatureAction::Wait { ms: 60_000 }) && task.next(
            TemperatureEvent::Initialised(false),
        ).0.next(TemperatureEvent::Waited).0 == task,
        (event is Initialised && task.phase != Phase::Init) || (event == TemperatureEvent::Waited
            && task.phase != Phase::InitRetry && task.phase != Phase::Pause) || ((event
            == TemperatureEvent::Sampled || event == TemperatureEvent::OutOfRange || event
            == TemperatureEvent::ReadFailed) && task.phase != Phase::Sample) ==> task.next(event)
            == (task, TemperatureReport::Nothing),
{
}

} // verus!

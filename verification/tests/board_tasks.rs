use kc868_a6::bsp::i2c_addr::RELAY_EXPANDER;
use kc868_a6::button::{ButtonAction, ButtonTask};
use kc868_a6::hw_watchdog::{stage0_timeout_us, FEED_PERIOD_MS};
use kc868_a6::i2c_scan::I2cScan;
use kc868_a6::inputs::{current_mask, try_safety_reset, InputAction, InputMonitor};
use kc868_a6::max31865::{Error, Max31865, RtdRead, RtdStep};
use kc868_a6::pcf8574::{BusWrite, Pcf8574};
use kc868_a6::relays::{
    current_on_mask, nz, InitStep, Outcome, RelayCommand, RelayJob, RelayStep, Relays,
};
use kc868_a6::safety::{is_locked, lock, unlock};
use kc868_a6::shared::Shared;
use kc868_a6::temperature::{
    TemperatureAction, TemperatureEvent, TemperatureReport, TemperatureTask,
};
use kc868_a6::watchdog::{age_since, look, now_ms_u32, pet_mqtt, Loss};

fn ready() -> Relays<()> {
    let mut init = Relays::new((), RELAY_EXPANDER);
    assert_eq!(init.step(), InitStep::Write(BusWrite { addr: 0x24, byte: 0xFF }));
    init.on_write(true);
    assert_eq!(init.step(), InitStep::Done);
    match init.finish() {
        Ok(relays) => relays,
        Err(_) => panic!("bring-up failed"),
    }
}

/// Drive a command with the bus replies given, return the outcome and the waits.
fn run(
    relays: &mut Relays<()>,
    shared: &mut Shared,
    cmd: RelayCommand,
    now_us: u64,
    replies: &[Result<(), u8>],
) -> (Outcome<u8>, Vec<u8>, Vec<u64>) {
    let mut job: RelayJob<u8> = relays.apply(cmd, shared.locked, now_us);
    let mut bytes = Vec::new();
    let mut waits = Vec::new();
    let mut reply = replies.iter();
    loop {
        match relays.step(&job) {
            RelayStep::Write(w) => {
                bytes.push(w.byte);
                let written = *reply.next().unwrap();
                job = relays.on_write(job, written, now_us, shared);
            }
            RelayStep::Wait { ms } => {
                waits.push(ms);
                job = relays.on_wait(job);
            }
            RelayStep::Done(_) => break,
        }
    }
    match job {
        RelayJob::Done(outcome) => (outcome, bytes, waits),
        other => panic!("{:?}", other),
    }
}

#[test]
fn bring_up_gives_up_after_five_attempts() {
    let mut init = Relays::new((), RELAY_EXPANDER);
    let mut waits = Vec::new();
    for attempt in 1..=5 {
        assert_eq!(init.step(), InitStep::Write(BusWrite { addr: 0x24, byte: 0xFF }));
        init.on_write(false);
        if attempt < 5 {
            match init.step() {
                InitStep::Wait { ms } => waits.push(ms),
                other => panic!("{:?}", other),
            }
            init.on_wait();
        }
    }
    assert_eq!(waits, vec![20, 40, 60, 80]);
    assert!(init.finish().is_err());
}

#[test]
fn set_relay_drives_one_bit() {
    let mut relays = ready();
    let mut shared = Shared::new();
    let cmd = RelayCommand::SetRelay { index: 2, on: true };
    let (outcome, bytes, waits) = run(&mut relays, &mut shared, cmd, 0, &[Ok(())]);
    assert_eq!(outcome, Outcome::Applied);
    assert_eq!(bytes, vec![0xFB]);
    assert!(waits.is_empty());
    assert_eq!(current_on_mask(&shared), 0x04);
    assert!(shared.take_state_changed());
    assert!(!shared.take_state_changed());
}

#[test]
fn same_channel_is_debounced() {
    let mut relays = ready();
    let mut shared = Shared::new();
    let on = RelayCommand::SetRelay { index: 0, on: true };
    let off = RelayCommand::SetRelay { index: 0, on: false };
    let other = RelayCommand::SetRelay { index: 1, on: true };
    assert_eq!(run(&mut relays, &mut shared, on, 1_000, &[Ok(())]).0, Outcome::Applied);
    assert_eq!(run(&mut relays, &mut shared, off, 150_999, &[]).0, Outcome::Debounced);
    assert_eq!(run(&mut relays, &mut shared, other, 2_000, &[Ok(())]).0, Outcome::Applied);
    assert_eq!(run(&mut relays, &mut shared, off, 151_000, &[Ok(())]).0, Outcome::Applied);
    assert_eq!(shared.on_mask, 0x02);
}

#[test]
fn bad_index_is_rejected() {
    let mut relays = ready();
    let mut shared = Shared::new();
    let cmd = RelayCommand::SetRelay { index: 6, on: true };
    assert_eq!(run(&mut relays, &mut shared, cmd, 0, &[]), (Outcome::BadIndex, vec![], vec![]));
}

#[test]
fn locked_board_releases_everything() {
    let mut relays = ready();
    let mut shared = Shared::new();
    run(&mut relays, &mut shared, RelayCommand::SetMask(0x3F), 0, &[Ok(())]);
    assert_eq!(shared.on_mask, 0x3F);
    assert!(lock(&mut shared, "test"));
    let cmd = RelayCommand::SetRelay { index: 0, on: true };
    let (outcome, bytes, _) = run(&mut relays, &mut shared, cmd, 1, &[Err(1), Ok(())]);
    assert_eq!(outcome, Outcome::Refused { released: Ok(()) });
    assert_eq!(bytes, vec![0xFF, 0xFF]);
    assert_eq!(shared.on_mask, 0);
    let dead = [Err(1), Err(1), Err(1), Err(1), Err(1), Err(9)];
    let (outcome, _, _) = run(&mut relays, &mut shared, cmd, 1, &dead);
    assert_eq!(outcome, Outcome::Refused { released: Err(9) });
    let (outcome, _, _) = run(&mut relays, &mut shared, RelayCommand::AllOff, 2, &[Ok(())]);
    assert_eq!(outcome, Outcome::Applied);
}

#[test]
fn failed_writes_are_retried() {
    let mut relays = ready();
    let mut shared = Shared::new();
    let set = RelayCommand::SetMask(0x01);
    let (outcome, bytes, waits) = run(&mut relays, &mut shared, set, 0, &[Err(1), Err(2), Err(3)]);
    assert_eq!(outcome, Outcome::Failed { error: 3 });
    assert_eq!(bytes, vec![0xFE; 3]);
    assert_eq!(waits, vec![10, 20]);
    assert_eq!(shared.on_mask, 0);
    let (outcome, bytes, waits) = run(&mut relays, &mut shared, RelayCommand::AllOff, 0, &[Err(1), Err(2), Err(3), Err(4), Err(5), Err(6)]);
    assert_eq!(outcome, Outcome::Reset { error: 6 });
    assert_eq!(bytes, vec![0xFF; 6]);
    assert_eq!(waits, vec![10, 20, 30, 40, 50]);
}

#[test]
fn attempts_are_not_zero() {
    assert_eq!(nz(3).get(), 3);
    let relays = ready();
    let done: RelayJob<u8> = RelayJob::Done(Outcome::Applied);
    assert_eq!(relays.step(&done), RelayStep::Done(&Outcome::Applied));
}

#[test]
fn expander_writes_only_changes() {
    let mut chip = Pcf8574::new((), 0x20, 0xFF);
    assert_eq!(chip.commit(), BusWrite { addr: 0x20, byte: 0xFF });
    assert_eq!(chip.set_bit(3, false), Some(BusWrite { addr: 0x20, byte: 0xF7 }));
    assert_eq!(chip.set_bit(3, false), None);
    assert_eq!(chip.write_port(0x12), BusWrite { addr: 0x20, byte: 0x12 });
    assert_eq!(chip.shadow(), 0x12);
    assert_eq!(chip.read_port::<u8>(Ok([0x55])).ok(), Some(0x55));
    assert!(chip.read_port::<u8>(Err(7)).is_err());
}

#[test]
fn interlock_flips_once() {
    let mut shared = Shared::new();
    assert!(!is_locked(&shared));
    assert!(lock(&mut shared, "first"));
    assert!(!lock(&mut shared, "second"));
    assert!(is_locked(&shared));
    assert_eq!(shared.take_changed(), Some(true));
    assert_eq!(shared.take_changed(), None);
    assert!(unlock(&mut shared, "first"));
    assert!(!unlock(&mut shared, "second"));
    assert_eq!(shared.take_changed(), Some(false));
}

#[test]
fn two_open_reads_engage_the_interlock() {
    let mut shared = Shared::new();
    let mut monitor = InputMonitor::new();
    assert_eq!(
        monitor.on_read(0xC0, true, &mut shared),
        InputAction { report: Some(0x3F), all_off: false }
    );
    assert_eq!(current_mask(&shared), 0x3F);
    assert_eq!(
        monitor.on_read(0xC1, true, &mut shared),
        InputAction { report: Some(0x3E), all_off: false }
    );
    assert!(!shared.locked);
    assert_eq!(
        monitor.on_read(0xC1, true, &mut shared),
        InputAction { report: None, all_off: true }
    );
    assert!(shared.locked);
    assert_eq!(
        monitor.on_read(0xC1, true, &mut shared),
        InputAction { report: None, all_off: false }
    );
}

#[test]
fn one_open_read_is_no_alarm() {
    let mut shared = Shared::new();
    let mut monitor = InputMonitor::new();
    for _ in 0..10 {
        monitor.on_read(0xFF, true, &mut shared);
        monitor.on_read(0x00, true, &mut shared);
    }
    assert!(!shared.locked);
}

#[test]
fn unarmed_inputs_do_not_lock() {
    let mut shared = Shared::new();
    let mut monitor = InputMonitor::new();
    for _ in 0..10 {
        assert!(!monitor.on_read(0xFF, false, &mut shared).all_off);
    }
    assert!(!shared.locked);
    assert_eq!(monitor.alarm_streak, 0);
}

#[test]
fn reset_needs_closed_inputs() {
    let mut shared = Shared::new();
    let mut monitor = InputMonitor::new();
    monitor.on_read(0xFF, true, &mut shared);
    monitor.on_read(0xFF, true, &mut shared);
    assert!(shared.locked);
    assert!(!try_safety_reset(&mut shared));
    assert!(shared.locked);
    monitor.on_read(0x00, true, &mut shared);
    assert!(shared.locked);
    assert!(try_safety_reset(&mut shared));
    assert!(!shared.locked);
    assert!(!try_safety_reset(&mut shared));
    assert!(!shared.locked);
}

#[test]
fn reset_needs_closed_inputs_when_not_armed() {
    let mut shared = Shared::new();
    let mut monitor = InputMonitor::new();
    monitor.on_read(0x01, false, &mut shared);
    lock(&mut shared, "test");
    assert!(!try_safety_reset(&mut shared));
    assert!(shared.locked);
    monitor.on_read(0x00, false, &mut shared);
    assert!(try_safety_reset(&mut shared));
    assert!(!shared.locked);
}

#[test]
fn fresh_boot_has_no_age() {
    assert_eq!(age_since(None, 5), None);
    assert_eq!(age_since(Some(5), 7), Some(2));
    assert_eq!(age_since(Some(0xFFFF_FFF0), 0x10), Some(0x20));
    assert_eq!(now_ms_u32(0x1_0000_0005), 5);
    let mut shared = Shared::new();
    assert_eq!(look(&mut shared, 10_000_000, false), None);
    assert!(!shared.locked);
}

#[test]
fn silent_publisher_trips() {
    let mut shared = Shared::new();
    pet_mqtt(&mut shared, 1_000);
    assert_eq!(look(&mut shared, 31_000, true), None);
    assert_eq!(look(&mut shared, 31_001, true), Some(Loss::Mqtt));
    assert!(shared.locked);
    assert_eq!(look(&mut shared, 32_000, true), None);
}

#[test]
fn last_stamp_before_the_wrap_counts() {
    let seen = 0xFFFF_FFFF;
    let mut shared = Shared::new();
    pet_mqtt(&mut shared, seen);
    assert_eq!(shared.mqtt_last_ok_ms, Some(0xFFFF_FFFF));
    assert_eq!(look(&mut shared, seen, true), None);
    assert_eq!(shared.wifi_last_ok_ms, Some(0xFFFF_FFFF));
    assert_eq!(look(&mut shared, seen + 30_000, false), None);
    assert_eq!(look(&mut shared, seen + 30_001, false), Some(Loss::Mqtt));
    let mut shared = Shared::new();
    look(&mut shared, seen, true);
    assert_eq!(look(&mut shared, seen + 60_000, false), None);
    assert_eq!(look(&mut shared, seen + 60_001, false), Some(Loss::Wifi));
}

#[test]
fn lost_link_trips() {
    let mut shared = Shared::new();
    assert_eq!(look(&mut shared, 0, true), None);
    assert_eq!(look(&mut shared, 60_000, false), None);
    assert_eq!(look(&mut shared, 60_001, false), Some(Loss::Wifi));
    let mut shared = Shared::new();
    pet_mqtt(&mut shared, 0);
    look(&mut shared, 0, true);
    assert_eq!(look(&mut shared, 70_000, false), Some(Loss::WifiAndMqtt));
}

#[test]
fn press_runs_the_chase() {
    let mut task = ButtonTask::new();
    let mut sent = Vec::new();
    task.advance(false, false);
    assert_eq!(task.action(), ButtonAction::Wait { ms: 50 });
    task.advance(false, false);
    for _ in 0..13 {
        match task.action() {
            ButtonAction::Send(cmd) => sent.push(cmd),
            ButtonAction::Wait { ms } => assert_eq!(ms, 200),
            other => panic!("{:?}", other),
        }
        task.advance(false, false);
    }
    let mut expected: Vec<RelayCommand> = (0..6).map(|i| RelayCommand::SetMask(1 << i)).collect();
    expected.push(RelayCommand::AllOff);
    assert_eq!(sent, expected);
    assert_eq!(task.action(), ButtonAction::WaitHigh);
    task.advance(true, false);
    assert_eq!(task.action(), ButtonAction::Wait { ms: 50 });
    task.advance(true, false);
    assert_eq!(task.action(), ButtonAction::WaitFallingEdge);
}

#[test]
fn bounce_and_lock_run_no_chase() {
    let mut task = ButtonTask::new();
    task.advance(false, false);
    task.advance(true, false);
    assert_eq!(task, ButtonTask::Idle);
    task.advance(false, true);
    task.advance(false, true);
    assert_eq!(task, ButtonTask::Release);
}

#[test]
fn temperature_errors_are_reported_sparingly() {
    let mut task = TemperatureTask::new();
    assert_eq!(task.action(), TemperatureAction::InitSensor);
    task.advance(TemperatureEvent::Initialised(false));
    assert_eq!(task.action(), TemperatureAction::Wait { ms: 60_000 });
    task.advance(TemperatureEvent::Waited);
    task.advance(TemperatureEvent::Initialised(true));
    let mut warned = Vec::new();
    for _ in 0..61 {
        assert_eq!(task.action(), TemperatureAction::ReadSensor);
        if let TemperatureReport::Warn { errors } = task.advance(TemperatureEvent::ReadFailed) {
            warned.push(errors);
        }
        assert_eq!(task.action(), TemperatureAction::Wait { ms: 1_000 });
        task.advance(TemperatureEvent::Waited);
    }
    assert_eq!(warned, vec![1, 30, 60]);
    assert_eq!(
        task.advance(TemperatureEvent::Sampled),
        TemperatureReport::Publish { recovered_after: 61 }
    );
    task.advance(TemperatureEvent::Waited);
    assert_eq!(
        task.advance(TemperatureEvent::OutOfRange),
        TemperatureReport::Warn { errors: 1 }
    );
}

#[test]
fn rtd_code_drops_the_fault_bit() {
    let chip = Max31865::new(());
    assert_eq!(chip.init(), [0x80, 0xC3]);
    let read: RtdRead<u8> = chip.read_raw();
    match read.step() {
        RtdStep::ReadData(frame) => assert_eq!(frame, [0x01, 0, 0]),
        other => panic!("{:?}", other),
    }
    match read.on_data(Ok([0, 0x40, 0x02])) {
        RtdRead::Done(Ok(code)) => assert_eq!(code, 0x2001),
        other => panic!("{:?}", other),
    }
}

#[test]
fn rtd_fault_is_read_and_cleared() {
    let chip = Max31865::new(());
    let read: RtdRead<u8> = chip.read_raw();
    let read = read.on_data(Ok([0, 0x40, 0x03]));
    match read.step() {
        RtdStep::ReadStatus(frame) => assert_eq!(frame, [0x07, 0]),
        other => panic!("{:?}", other),
    }
    let read = read.on_status(Ok([0, 0x84]));
    match read.step() {
        RtdStep::Write(frame) => assert_eq!(frame, [0x80, 0xC3]),
        other => panic!("{:?}", other),
    }
    match read.on_clear() {
        RtdRead::Done(Err(Error::Fault(fault))) => assert_eq!(fault, 0x84),
        other => panic!("{:?}", other),
    }
}

#[test]
fn rtd_bus_errors_come_through() {
    let chip = Max31865::new(());
    let read: RtdRead<u8> = chip.read_raw();
    match read.on_data(Err(9)) {
        RtdRead::Done(Err(Error::Spi(e))) => assert_eq!(e, 9),
        other => panic!("{:?}", other),
    }
}

#[test]
fn scan_covers_the_valid_addresses() {
    let mut scan = I2cScan::new();
    let mut seen = Vec::new();
    while let Some(probe) = scan.next() {
        assert_eq!(probe.len, 0);
        seen.push(probe.address);
        scan.reply(probe.address == 0x22 || probe.address == 0x24);
    }
    assert_eq!(seen, (0x08u8..=0x77).collect::<Vec<u8>>());
    assert_eq!(scan.found(), 2);
}

#[test]
fn hardware_watchdog_period() {
    assert_eq!(stage0_timeout_us(), 8_000_000);
    assert!(FEED_PERIOD_MS * 1_000 < stage0_timeout_us());
}

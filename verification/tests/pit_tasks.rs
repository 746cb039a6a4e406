use ferrum_os::task::demo_task::{cancel_task, sleep, tick_sleepers, SleepPoll};
use ferrum_os::task::{Task, TaskId};
use ferrum_os::timer::pit::pit_config::{PITAccessMode, PITChannel, PITConfig, PITEncoding, PITOperatingMode};
use ferrum_os::timer::pit::{PIT, PIT_CHANNEL0_PORT, PIT_COMMAND_PORT, PIT_START_COMMAND_PORT};
use std::collections::BTreeMap;

#[test]
fn pit_config_built_from_fields() {
    let c = PITConfig::build_from(
        PITEncoding::Binary,
        PITOperatingMode::RateGenerator,
        PITAccessMode::AccessLowByteThenHighByte,
        PITChannel::Channel0,
    );
    assert_eq!(c.get_config(), 0b0011_0100);
    let c = PITConfig::build_from(
        PITEncoding::BCD,
        PITOperatingMode::HardwareTriggeredStrobe,
        PITAccessMode::AccessHighByte,
        PITChannel::Channel1,
    );
    assert_eq!(c.get_config(), 0b0110_1011);
}

#[test]
fn pit_config_setters() {
    let mut c = PITConfig::new();
    assert_eq!(c.get_config(), 0);
    c.set_mode(PITOperatingMode::SquareWaveGenerator);
    assert_eq!(c.get_config(), 0b0000_0110);
    c.set_access_mode(PITAccessMode::AccessLowByte);
    assert_eq!(c.get_config(), 0b0001_0110);
    c.set_channel(PITChannel::Channel2);
    assert_eq!(c.get_config(), 0b1001_0110);
    c.set_encoding(PITEncoding::BCD);
    assert_eq!(c.get_config(), 0b1001_0111);
    // toggling the encoding back restores the byte
    c.set_encoding(PITEncoding::Binary);
    assert_eq!(c.get_config(), 0b1001_0110);
}

#[test]
fn pit_start_writes() {
    let mut p = PIT::new();
    p.set_reload(0x1234);
    assert_eq!(
        p.start(),
        vec![(PIT_START_COMMAND_PORT, 0xB4), (PIT_CHANNEL0_PORT, 0x34), (PIT_CHANNEL0_PORT, 0x12)]
    );
    p.set_encoding(PITEncoding::BCD);
    assert_eq!(p.start()[0], (0x42, 0xB5));
    p.set_channel(PITChannel::Channel1);
    p.set_mode(PITOperatingMode::HardwareRetriggerableOneShot);
    p.set_access_mode(PITAccessMode::AccessLowByte);
    assert_eq!(p.start()[0], (0x42, 0xF7));
}

#[test]
fn pit_sleep_setup_writes() {
    assert_eq!(
        PIT::sleep_setup(),
        vec![(PIT_COMMAND_PORT, 0x34), (PIT_CHANNEL0_PORT, 0xA9), (PIT_CHANNEL0_PORT, 0x04)]
    );
}

#[test]
fn task_ids_are_fresh() {
    let mut next = 0u64;
    let a = TaskId::new(&mut next);
    let b = TaskId::new(&mut next);
    assert_ne!(a, b);
    assert_eq!(a.as_u64(), 0);
    assert_eq!(b.as_u64(), 1);
    assert_eq!(next, 2);
    let mut top = u64::MAX;
    assert_eq!(TaskId::new(&mut top).as_u64(), u64::MAX);
    assert_eq!(top, 0);
    assert_eq!(TaskId::from(9), TaskId::from(9));
}

#[test]
fn task_carries_id_and_future() {
    let mut next = 5u64;
    let mut t = Task::new(41u32, &mut next);
    assert_eq!(t.id(), 5);
    assert_eq!(next, 6);
    *t.future_mut() += 1;
    assert_eq!(*t.future_mut(), 42);
    assert_eq!(t.task_id(), TaskId::from(5));
    let u = Task::new_with_id(77, ());
    assert_eq!(u.id(), 77);
}

#[test]
fn sleep_polls() {
    let mut s = sleep(3, TaskId::from(8));
    assert_eq!(s.poll(), SleepPoll::Register(8, 3));
    assert!(s.registered);
    assert_eq!(s.poll(), SleepPoll::Pending);
    s.remaining = 0;
    assert_eq!(s.poll(), SleepPoll::Ready);
    let mut z = sleep(0, TaskId::from(1));
    assert_eq!(z.poll(), SleepPoll::Ready);
    assert!(!z.registered);
}

#[test]
fn cancel_known_and_unknown_task() {
    let mut signals: BTreeMap<u64, bool> = BTreeMap::new();
    signals.insert(3, false);
    assert!(cancel_task(&mut signals, 3));
    assert_eq!(signals.get(&3), Some(&true));
    assert!(!cancel_task(&mut signals, 4));
    assert_eq!(signals.len(), 1);
}

#[test]
fn timer_tick_wakes_tasks_whose_time_runs_out() {
    let mut sleepers: BTreeMap<u64, u64> = BTreeMap::new();
    sleepers.insert(1, 3);
    sleepers.insert(2, 1);
    sleepers.insert(5, 0);
    sleepers.insert(7, 1);
    let mut woken = tick_sleepers(&mut sleepers);
    woken.sort();
    assert_eq!(woken, vec![2, 7]);
    assert_eq!(sleepers.get(&1), Some(&2));
    assert_eq!(sleepers.get(&5), Some(&0));
    assert_eq!(sleepers.len(), 2);
    let woken = tick_sleepers(&mut sleepers);
    assert!(woken.is_empty());
    assert_eq!(sleepers.get(&1), Some(&1));
    let woken = tick_sleepers(&mut sleepers);
    assert_eq!(woken, vec![1]);
    assert_eq!(sleepers.len(), 1);
}

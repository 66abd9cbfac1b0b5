use ruuvi_collector::address::HardwareAddress;
use ruuvi_collector::export::to_points;
use ruuvi_collector::poll::{collect_readings, DeviceRead};
use ruuvi_collector::registry::{DeviceEvent, DeviceRegistry, DeviceState, TransportError};
use ruuvi_collector::schedule::{ExportError, PollScheduler, SinkError};

fn hex(s: &str) -> Vec<u8> {
    (0..s.len()).step_by(2).map(|i| u8::from_str_radix(&s[i..i + 2], 16).unwrap()).collect()
}

fn payload() -> Vec<u8> {
    hex("0512FC5394C37C0004FFFC040CAC364200CDCBB8334C884F")
}

fn registry(n: usize, subscribed: usize) -> DeviceRegistry {
    let entries = (0..n)
        .map(|i| (format!("tag{}", i), HardwareAddress::new([1, 2, 3, 4, 5, i as u8])))
        .collect();
    let mut reg = DeviceRegistry::from_config(entries).unwrap();
    for i in 0..subscribed {
        reg.apply(i, DeviceEvent::Sighted, 0);
        reg.apply(i, DeviceEvent::ConnectStarted, 0);
        reg.apply(i, DeviceEvent::ConnectSucceeded, 0);
        reg.apply(i, DeviceEvent::SubscribeSucceeded, 0);
    }
    reg
}

#[test]
fn tick_keeps_good_reads_and_records_failures() {
    let mut reg = registry(4, 4);
    let reads = vec![
        DeviceRead { device: 0, payload: Ok(payload()) },
        DeviceRead { device: 1, payload: Err(TransportError::Disconnected) },
        DeviceRead { device: 2, payload: Ok(vec![5, 1, 2]) },
        DeviceRead { device: 3, payload: Err(TransportError::Timeout) },
    ];
    let batch = collect_readings(&mut reg, &reads, 777);
    assert_eq!(batch.len(), 1);
    assert_eq!(batch[0].source_name, "tag0");
    assert_eq!(batch[0].source_address, HardwareAddress::new([1, 2, 3, 4, 5, 0]));
    assert_eq!(batch[0].collected_at_ms, 777);
    assert_eq!(batch[0].measurements.pressure, 100044);
    assert_eq!(reg.get(0).state, DeviceState::Subscribed);
    assert_eq!(reg.get(0).last_seen_ms, Some(777));
    assert_eq!(reg.get(1).state, DeviceState::Failed);
    assert_eq!(reg.get(1).consecutive_failures, 1);
    assert_eq!(reg.get(2).state, DeviceState::Subscribed);
    assert_eq!(reg.get(2).consecutive_failures, 1);
    assert_eq!(reg.get(3).state, DeviceState::Subscribed);
    assert_eq!(reg.get(3).consecutive_failures, 1);
}

#[test]
fn failed_read_leaves_unread_devices_alone() {
    let mut reg = registry(3, 3);
    let reads = vec![DeviceRead { device: 1, payload: Err(TransportError::Disconnected) }];
    collect_readings(&mut reg, &reads, 5);
    assert_eq!(reg.get(0).state, DeviceState::Subscribed);
    assert_eq!(reg.get(0).consecutive_failures, 0);
    assert_eq!(reg.get(2).state, DeviceState::Subscribed);
    assert_eq!(reg.get(1).state, DeviceState::Failed);
}

#[test]
fn reads_of_unsubscribed_devices_are_ignored() {
    let mut reg = registry(2, 1);
    let reads = vec![
        DeviceRead { device: 1, payload: Ok(payload()) },
        DeviceRead { device: 7, payload: Ok(payload()) },
    ];
    let batch = collect_readings(&mut reg, &reads, 5);
    assert!(batch.is_empty());
    assert_eq!(reg.get(1).state, DeviceState::Unseen);
    assert_eq!(reg.get(1).last_seen_ms, None);
}

#[test]
fn no_subscribed_devices_gives_empty_batch_and_no_error() {
    let mut reg = registry(2, 0);
    let batch = collect_readings(&mut reg, &vec![], 5);
    assert!(batch.is_empty());
    let points = to_points(&"ruuvi".to_string(), &batch);
    assert!(points.is_empty());
    let mut sched = PollScheduler::new(0, 1000);
    let report = sched.finish_tick(5, Ok(()));
    assert_eq!(report.export, Ok(()));
    assert_eq!(sched.failed_exports(), 0);
}

#[test]
fn points_are_tagged_by_name_and_address() {
    let mut reg = registry(2, 2);
    let reads = vec![
        DeviceRead { device: 1, payload: Ok(payload()) },
        DeviceRead { device: 0, payload: Ok(payload()) },
    ];
    let batch = collect_readings(&mut reg, &reads, 9);
    let points = to_points(&"ruuvi".to_string(), &batch);
    assert_eq!(points.len(), 2);
    assert_eq!(points[0].measurement, "ruuvi");
    assert_eq!(points[0].name, "tag1");
    assert_eq!(points[0].address, HardwareAddress::new([1, 2, 3, 4, 5, 1]));
    assert_eq!(points[1].name, "tag0");
    assert_eq!(points[1].fields.movement_counter, 66);
    assert_eq!(points[1].fields.tx_power, 4);
    assert_eq!(points[1].collected_at_ms, 9);
}

#[test]
fn instantaneous_ticks_are_one_period_apart() {
    let mut sched = PollScheduler::new(10_000, 1000);
    let mut now = 10_000u64;
    for _ in 0..50 {
        let report = sched.finish_tick(now, Ok(()));
        assert_eq!(report.sleep_ms, 1000);
        now += report.sleep_ms;
    }
    assert_eq!(now - 10_000, 50 * 1000);
    assert_eq!(sched.ticks(), 50);
}

#[test]
fn slow_tick_shortens_but_does_not_skip() {
    let mut sched = PollScheduler::new(0, 1000);
    let r = sched.finish_tick(300, Ok(()));
    assert_eq!(r.sleep_ms, 700);
    assert_eq!(sched.current_boundary_ms(), 1000);
    // This tick works 1500 ms: the next one starts as soon as it ends.
    let r = sched.finish_tick(2500, Ok(()));
    assert_eq!(r.sleep_ms, 0);
    assert_eq!(sched.current_boundary_ms(), 2500);
    // An instant tick: the following one comes a full period later.
    let r = sched.finish_tick(2500, Ok(()));
    assert_eq!(r.sleep_ms, 1000);
    assert_eq!(sched.current_boundary_ms(), 3500);
    let r = sched.finish_tick(3600, Ok(()));
    assert_eq!(r.sleep_ms, 900);
    assert_eq!(sched.current_boundary_ms(), 4500);
    assert_eq!(sched.ticks(), 4);
}

#[test]
fn very_slow_tick_gives_no_catch_up_burst() {
    let mut sched = PollScheduler::new(0, 1000);
    // A tick of 3.5 periods.
    let r = sched.finish_tick(3500, Ok(()));
    assert_eq!(r.sleep_ms, 0);
    let mut now = 3500u64 + r.sleep_ms;
    for _ in 0..3 {
        let r = sched.finish_tick(now, Ok(()));
        assert_eq!(r.sleep_ms, 1000);
        now += r.sleep_ms;
    }
    assert_eq!(now, 6500);
    assert_eq!(sched.ticks(), 4);
}

#[test]
fn export_failure_does_not_stop_next_tick() {
    let mut sched = PollScheduler::new(0, 1000);
    let r = sched.finish_tick(10, Err(SinkError::WriteFailed));
    assert_eq!(r.export, Err(ExportError::WriteFailed));
    assert_eq!(r.sleep_ms, 990);
    assert_eq!(sched.failed_exports(), 1);
    let r = sched.finish_tick(1010, Ok(()));
    assert_eq!(r.export, Ok(()));
    assert_eq!(r.sleep_ms, 990);
    assert_eq!(sched.ticks(), 2);
    assert_eq!(sched.period_ms(), 1000);
}

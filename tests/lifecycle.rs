use ruuvi_collector::address::HardwareAddress;
use ruuvi_collector::discovery::{
    all_subscribed, observe_scan, pick_notify_channel, subscribed_devices, Characteristic,
    NOTIFY_CHARACTERISTIC,
};
use ruuvi_collector::registry::{
    ConfigError, DeviceEvent, DeviceRegistry, DeviceState, TransportError,
};

fn addr(last: u8) -> HardwareAddress {
    HardwareAddress::new([0xF2, 0x2D, 0xEB, 0x37, 0x8A, last])
}

fn two_devices() -> DeviceRegistry {
    DeviceRegistry::from_config(vec![
        ("kitchen".to_string(), addr(1)),
        ("garage".to_string(), addr(2)),
    ])
    .unwrap()
}

fn subscribe(reg: &mut DeviceRegistry, i: usize) {
    reg.apply(i, DeviceEvent::Sighted, 1);
    reg.apply(i, DeviceEvent::ConnectStarted, 2);
    reg.apply(i, DeviceEvent::ConnectSucceeded, 3);
    reg.apply(i, DeviceEvent::SubscribeSucceeded, 4);
}

#[test]
fn registry_starts_unseen() {
    let reg = two_devices();
    assert_eq!(reg.len(), 2);
    for i in 0..2 {
        let d = reg.get(i);
        assert_eq!(d.state, DeviceState::Unseen);
        assert_eq!(d.last_seen_ms, None);
        assert_eq!(d.consecutive_failures, 0);
    }
    assert_eq!(reg.get(1).name, "garage");
    assert_eq!(reg.get(1).address, addr(2));
}

#[test]
fn duplicate_name_is_refused() {
    let r = DeviceRegistry::from_config(vec![
        ("kitchen".to_string(), addr(1)),
        ("kitchen".to_string(), addr(2)),
    ]);
    assert!(matches!(r, Err(ConfigError::DuplicateName)));
}

#[test]
fn duplicate_address_is_refused() {
    let r = DeviceRegistry::from_config(vec![
        ("kitchen".to_string(), addr(1)),
        ("garage".to_string(), addr(1)),
    ]);
    assert!(matches!(r, Err(ConfigError::DuplicateAddress)));
}

#[test]
fn empty_configuration_is_all_subscribed() {
    let reg = DeviceRegistry::from_config(vec![]).unwrap();
    assert!(all_subscribed(&reg));
    assert!(subscribed_devices(&reg).is_empty());
}

#[test]
fn full_lifecycle_reaches_subscribed_through_connected() {
    let mut reg = two_devices();
    reg.apply(0, DeviceEvent::Sighted, 10);
    assert_eq!(reg.get(0).state, DeviceState::Discovered);
    assert_eq!(reg.get(0).last_seen_ms, Some(10));
    reg.apply(0, DeviceEvent::ConnectStarted, 11);
    assert_eq!(reg.get(0).state, DeviceState::Connecting);
    reg.apply(0, DeviceEvent::SubscribeSucceeded, 12);
    assert_eq!(reg.get(0).state, DeviceState::Connecting);
    reg.apply(0, DeviceEvent::ConnectSucceeded, 13);
    assert_eq!(reg.get(0).state, DeviceState::Connected);
    reg.apply(0, DeviceEvent::SubscribeSucceeded, 14);
    assert_eq!(reg.get(0).state, DeviceState::Subscribed);
}

#[test]
fn subscribe_is_ignored_before_connect() {
    let mut reg = two_devices();
    reg.apply(0, DeviceEvent::SubscribeSucceeded, 1);
    assert_eq!(reg.get(0).state, DeviceState::Unseen);
    reg.apply(0, DeviceEvent::Sighted, 2);
    reg.apply(0, DeviceEvent::SubscribeSucceeded, 3);
    assert_eq!(reg.get(0).state, DeviceState::Discovered);
}

#[test]
fn connect_failure_counts_and_retries() {
    let mut reg = two_devices();
    reg.apply(0, DeviceEvent::Sighted, 1);
    reg.apply(0, DeviceEvent::ConnectStarted, 2);
    reg.apply(0, DeviceEvent::TransportFailed(TransportError::ConnectFailed), 3);
    assert_eq!(reg.get(0).state, DeviceState::Failed);
    assert_eq!(reg.get(0).consecutive_failures, 1);
    reg.apply(0, DeviceEvent::ConnectStarted, 4);
    assert_eq!(reg.get(0).state, DeviceState::Connecting);
    reg.apply(0, DeviceEvent::TransportFailed(TransportError::ConnectFailed), 5);
    assert_eq!(reg.get(0).consecutive_failures, 2);
    reg.apply(0, DeviceEvent::Sighted, 6);
    assert_eq!(reg.get(0).state, DeviceState::Discovered);
}

#[test]
fn failure_on_one_device_leaves_the_other() {
    let mut reg = two_devices();
    subscribe(&mut reg, 1);
    reg.apply(0, DeviceEvent::Sighted, 1);
    reg.apply(0, DeviceEvent::ConnectStarted, 2);
    reg.apply(0, DeviceEvent::TransportFailed(TransportError::ConnectFailed), 3);
    assert_eq!(reg.get(0).state, DeviceState::Failed);
    assert_eq!(reg.get(1).state, DeviceState::Subscribed);
    assert_eq!(reg.get(1).consecutive_failures, 0);
    assert_eq!(reg.get(1).last_seen_ms, Some(1));
}

#[test]
fn subscribed_device_fails_on_disconnect_but_not_on_timeout() {
    let mut reg = two_devices();
    subscribe(&mut reg, 0);
    reg.apply(0, DeviceEvent::TransportFailed(TransportError::Timeout), 5);
    assert_eq!(reg.get(0).state, DeviceState::Subscribed);
    assert_eq!(reg.get(0).consecutive_failures, 1);
    reg.apply(0, DeviceEvent::TransportFailed(TransportError::Disconnected), 6);
    assert_eq!(reg.get(0).state, DeviceState::Failed);
    assert_eq!(reg.get(0).consecutive_failures, 2);
}

#[test]
fn scan_discovers_visible_devices_only() {
    let mut reg = two_devices();
    let to_connect = observe_scan(&mut reg, &vec![addr(9), addr(2)], 100);
    assert_eq!(to_connect, vec![1]);
    assert_eq!(reg.get(0).state, DeviceState::Unseen);
    assert_eq!(reg.get(1).state, DeviceState::Discovered);
    assert_eq!(reg.get(1).last_seen_ms, Some(100));
    assert!(!all_subscribed(&reg));
}

#[test]
fn scan_skips_subscribed_devices() {
    let mut reg = two_devices();
    subscribe(&mut reg, 0);
    let to_connect = observe_scan(&mut reg, &vec![addr(1), addr(2)], 50);
    assert_eq!(to_connect, vec![1]);
    assert_eq!(reg.get(0).state, DeviceState::Subscribed);
    subscribe(&mut reg, 1);
    assert!(all_subscribed(&reg));
    assert_eq!(subscribed_devices(&reg), vec![0, 1]);
}

#[test]
fn notify_channel_needs_uuid_and_flag() {
    let chars = vec![
        Characteristic { uuid: 1, notify: true },
        Characteristic { uuid: NOTIFY_CHARACTERISTIC, notify: false },
        Characteristic { uuid: NOTIFY_CHARACTERISTIC, notify: true },
        Characteristic { uuid: NOTIFY_CHARACTERISTIC, notify: true },
    ];
    assert_eq!(pick_notify_channel(&chars), Some(2));
    assert_eq!(pick_notify_channel(&chars[..2].to_vec()), None);
    assert_eq!(NOTIFY_CHARACTERISTIC, 0x6e400003_b5a3_f393_e0a9_e50e24dcca9e);
}

#[test]
fn address_equality_compares_all_octets() {
    assert_eq!(addr(3), addr(3));
    assert_ne!(addr(3), addr(4));
    assert!(addr(2).is_among(&vec![addr(1), addr(2)]));
    assert!(!addr(3).is_among(&vec![]));
}

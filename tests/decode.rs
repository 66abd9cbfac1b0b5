use ruuvi_collector::decode::{decode, DecodeError, Measurements, FRAME_BYTES};

fn hex(s: &str) -> Vec<u8> {
    (0..s.len()).step_by(2).map(|i| u8::from_str_radix(&s[i..i + 2], 16).unwrap()).collect()
}

#[test]
fn decodes_published_format_five_payload() {
    let raw = hex("0512FC5394C37C0004FFFC040CAC364200CDCBB8334C884F");
    let m = decode(&raw).unwrap();
    assert_eq!(
        m,
        Measurements {
            temperature: 24300,
            humidity: 534900,
            pressure: 100044,
            acceleration_x: 4,
            acceleration_y: -4,
            acceleration_z: 1036,
            battery_voltage: 2977,
            tx_power: 4,
            movement_counter: 66,
            measurement_sequence: 205,
        }
    );
    assert!((m.temperature as f64 / 1000.0 - 24.3).abs() < 1e-9);
    assert!((m.humidity as f64 / 10000.0 - 53.49).abs() < 1e-9);
    assert!((m.battery_voltage as f64 / 1000.0 - 2.977).abs() < 1e-9);
}

#[test]
fn temperature_field_scales_by_five_thousandths() {
    let mut raw = vec![0u8; FRAME_BYTES];
    raw[0] = 5;
    raw[1] = 0x04;
    raw[2] = 0x00;
    let m = decode(&raw).unwrap();
    assert_eq!(m.temperature, 5120);
    assert!((m.temperature as f64 / 1000.0 - 1024.0 * 0.005).abs() < 1e-9);
}

#[test]
fn all_zero_fields_give_offsets_only() {
    let raw = vec![0u8; FRAME_BYTES];
    let m = decode(&raw).unwrap();
    assert_eq!(m.temperature, 0);
    assert_eq!(m.humidity, 0);
    assert_eq!(m.pressure, 50000);
    assert_eq!(m.acceleration_x, 0);
    assert_eq!(m.battery_voltage, 1600);
    assert_eq!(m.tx_power, -40);
    assert_eq!(m.movement_counter, 0);
    assert_eq!(m.measurement_sequence, 0);
}

#[test]
fn all_ones_fields_give_largest_values() {
    let raw = vec![0xffu8; FRAME_BYTES];
    let m = decode(&raw).unwrap();
    assert_eq!(m.temperature, 327675);
    assert_eq!(m.humidity, 1638375);
    assert_eq!(m.pressure, 115535);
    assert_eq!(m.acceleration_x, -1);
    assert_eq!(m.acceleration_y, -1);
    assert_eq!(m.acceleration_z, -1);
    assert_eq!(m.battery_voltage, 3647);
    assert_eq!(m.tx_power, 22);
    assert_eq!(m.movement_counter, 255);
    assert_eq!(m.measurement_sequence, 65535);
}

#[test]
fn decode_is_deterministic() {
    let a = hex("0512FC5394C37C0004FFFC040CAC364200CDCBB8334C884F");
    let b = a.clone();
    assert_eq!(decode(&a), decode(&b));
    assert_eq!(decode(&a), decode(&a));
}

#[test]
fn bytes_past_the_layout_are_ignored() {
    let a = hex("0512FC5394C37C0004FFFC040CAC364200CD");
    let b = hex("0512FC5394C37C0004FFFC040CAC364200CDCBB8334C884F");
    assert_eq!(decode(&a), decode(&b));
}

#[test]
fn short_buffers_are_truncated() {
    let full = hex("0512FC5394C37C0004FFFC040CAC364200CD");
    for len in 0..FRAME_BYTES {
        assert_eq!(decode(&full[..len]), Err(DecodeError::Truncated));
    }
    assert!(decode(&full).is_ok());
}

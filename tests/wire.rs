use netboard::protocol::{decode, encode, InputEvent, EVENT_SIZE, EV_KEY};

fn ev(event_type: u16, code: u16, value: i32) -> InputEvent {
    InputEvent { event_type, code, value }
}

#[test]
fn encode_key_press_layout() {
    assert_eq!(encode(&ev(1, 30, 1)), vec![1, 0, 30, 0, 1, 0, 0, 0]);
}

#[test]
fn encode_little_endian_fields() {
    assert_eq!(
        encode(&ev(0x0102, 0xABCD, -2)),
        vec![0x02, 0x01, 0xCD, 0xAB, 0xFE, 0xFF, 0xFF, 0xFF]
    );
    assert_eq!(encode(&ev(2, 0, i32::MIN)), vec![2, 0, 0, 0, 0, 0, 0, 0x80]);
}

#[test]
fn encode_matches_bincode_of_fields() {
    let e = ev(2, 1, -300);
    let direct = bincode::serialize(&(2u16, 1u16, -300i32)).unwrap();
    assert_eq!(encode(&e), direct);
    assert_eq!(encode(&e).len(), EVENT_SIZE);
}

#[test]
fn round_trip_boundary_values() {
    let cases = [
        ev(0, 0, 0),
        ev(0, 0xFFFF, i32::MIN),
        ev(0, 0xFFFF, i32::MAX),
        ev(0xFFFF, 0, -1),
        ev(EV_KEY, 30, 1),
        ev(EV_KEY, 30, 0),
        ev(2, 8, -120),
    ];
    for e in cases.iter() {
        assert_eq!(decode(&encode(e)), Some(*e));
    }
}

#[test]
fn decode_rejects_every_short_payload() {
    let full = encode(&ev(1, 30, 1));
    for n in 0..EVENT_SIZE {
        assert_eq!(decode(&full[..n]), None);
    }
}

#[test]
fn decode_ignores_trailing_bytes() {
    let mut bytes = encode(&ev(4, 4, 458756));
    bytes.extend_from_slice(&[9, 9, 9]);
    assert_eq!(decode(&bytes), Some(ev(4, 4, 458756)));
}

#[test]
fn decode_reads_known_bytes() {
    assert_eq!(decode(&[3, 0, 0x10, 0x01, 0xFF, 0xFF, 0xFF, 0x7F]), Some(ev(3, 0x0110, i32::MAX)));
}

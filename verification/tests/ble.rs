use ef_core::ble::{
    best_scan_record, choose_write_type, dis_serial, eq_ignore_ascii_case, found_from_advert,
    pick_peripheral, scan_identity, ConnectAction, ConnectEvent, ConnectPolicy, parse_scan_record, select_characteristics,
    should_subscribe, WriteKind, GATT_SERVICE_CHANGED, NORDIC_NOTIFY, NORDIC_WRITE, RFCOMM_NOTIFY, RFCOMM_WRITE,
};

fn record(serial: &[u8], product: u8, flags: u8) -> Vec<u8> {
    let mut md = vec![0x13];
    let mut s = serial.to_vec();
    s.resize(16, 0);
    md.extend_from_slice(&s);
    md.push(0);
    md.push(product);
    md.extend_from_slice(&[0, 0, 0]);
    md.push(flags);
    md
}

#[test]
fn scan_record_decodes_serial_and_flags() {
    let md = record(b"R611ZEB1234", 0x13, 0b0011000);
    assert_eq!(parse_scan_record(&md), Some(("R611ZEB1234".to_string(), 3, 0x13)));
    assert_eq!(parse_scan_record(&md[..17]), Some(("R611ZEB1234".to_string(), 7, 0)));
    assert_eq!(parse_scan_record(&md[..16]), None);
    assert_eq!(parse_scan_record(&record(b"R61", 0, 0)), None);
    assert_eq!(parse_scan_record(&record(b"R6 1ABCD", 0, 0)), None);
    assert_eq!(parse_scan_record(&record(&[0x52, 0xc3, 0xa9, 0x41, 0x42], 0, 0)), None);
}

#[test]
fn best_record_is_first_decodable() {
    let recs = vec![vec![1, 2, 3], record(b"EF12345", 1, 0), record(b"R600000", 2, 0)];
    assert_eq!(best_scan_record(&recs), Some(("EF12345".to_string(), 0, 1)));
    assert_eq!(best_scan_record(&vec![]), None);
}

#[test]
fn adverts_are_filtered_to_ecoflow() {
    let f = found_from_advert("AA".into(), "EF-R2".into(), None).unwrap();
    assert_eq!((f.serial, f.encrypt_type, f.product_type), (None, 7, 0));
    assert!(found_from_advert("AA".into(), "Phone".into(), None).is_none());
    let g = found_from_advert("BB".into(), "x".into(), Some(("R611".into(), 0, 5))).unwrap();
    assert_eq!((g.serial.as_deref(), g.encrypt_type, g.product_type), (Some("R611"), 0, 5));
    assert!(found_from_advert("CC".into(), "x".into(), Some(("XY12".into(), 0, 5))).is_none());
}

#[test]
fn write_type_and_characteristics() {
    assert_eq!(choose_write_type(true, true, true), WriteKind::WithResponse);
    assert_eq!(choose_write_type(false, true, true), WriteKind::WithoutResponse);
    assert_eq!(choose_write_type(true, false, false), WriteKind::WithResponse);
    assert_eq!(select_characteristics(&[1, NORDIC_NOTIFY, RFCOMM_WRITE, NORDIC_WRITE]), Some((3, 1)));
    assert_eq!(select_characteristics(&[RFCOMM_NOTIFY, RFCOMM_WRITE, NORDIC_WRITE]), Some((1, 0)));
    assert_eq!(select_characteristics(&[NORDIC_WRITE]), None);
    assert!(!should_subscribe(GATT_SERVICE_CHANGED, true, false));
    assert!(should_subscribe(NORDIC_NOTIFY, false, true));
    assert!(!should_subscribe(NORDIC_NOTIFY, false, false));
}

#[test]
fn dis_serial_is_trimmed_text() {
    assert_eq!(dis_serial(b"R601ZEB4XE123456\0\0"), Some("R601ZEB4XE123456".to_string()));
    assert_eq!(dis_serial(b"  R611 \0"), Some("R611".to_string()));
    assert_eq!(dis_serial(b" \0\0"), None);
    assert_eq!(dis_serial(b""), None);
    assert_eq!(dis_serial(&[0xff, 0x41]), None);
    assert_eq!(dis_serial("\u{3000}Série\u{a0}\0".as_bytes()), Some("Série".to_string()));
}

#[test]
fn connect_policy_retries_four_times() {
    let (mut p, first) = ConnectPolicy::start();
    assert!(matches!(first.action, ConnectAction::Attempt(1)) && first.delay_ms == 0);
    let s = p.step(ConnectEvent::LinkFailed);
    assert!(matches!(s.action, ConnectAction::Attempt(2)) && s.delay_ms == 2000);
    let s = p.step(ConnectEvent::LinkTimedOut);
    assert!(matches!(s.action, ConnectAction::Attempt(3)) && s.delay_ms == 0);
    let s = p.step(ConnectEvent::Linked);
    assert!(matches!(s.action, ConnectAction::Poll) && s.delay_ms == 0);
    for _ in 0..14 {
        let s = p.step(ConnectEvent::Polled(false));
        assert!(matches!(s.action, ConnectAction::Poll) && s.delay_ms == 300);
    }
    let s = p.step(ConnectEvent::Polled(false));
    assert!(matches!(s.action, ConnectAction::Attempt(4)) && s.delay_ms == 300);
    let s = p.step(ConnectEvent::LinkFailed);
    assert!(matches!(s.action, ConnectAction::GiveUp) && s.delay_ms == 2000);
}

#[test]
fn connect_policy_stops_when_link_is_up() {
    let (mut p, _) = ConnectPolicy::start();
    p.step(ConnectEvent::Linked);
    p.step(ConnectEvent::Polled(false));
    let s = p.step(ConnectEvent::Polled(true));
    assert!(matches!(s.action, ConnectAction::Connected) && s.delay_ms == 0);
}

#[test]
fn peripheral_is_picked_by_address_ignoring_case() {
    assert!(eq_ignore_ascii_case("aa:Bb:0c", "AA:BB:0C"));
    assert!(!eq_ignore_ascii_case("AA:BB", "AA:BC"));
    assert!(!eq_ignore_ascii_case("AA", "AA:"));
    assert!(!eq_ignore_ascii_case("[", "{"));
    let addrs = vec!["11:22".to_string(), "aa:bb".to_string(), "AA:BB".to_string()];
    assert_eq!(pick_peripheral(&addrs, "AA:bb"), Some(1));
    assert_eq!(pick_peripheral(&addrs, "11:22"), Some(0));
    assert_eq!(pick_peripheral(&addrs, "33:44"), None);
}

#[test]
fn scan_identity_defaults_to_encrypt_type_7() {
    assert_eq!(scan_identity(None), (None, 7));
    assert_eq!(scan_identity(Some(("R611".to_string(), 1, 0x13))), (Some("R611".to_string()), 1));
}

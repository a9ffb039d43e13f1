use ef_core::cloud::{extract_user_id, login_request, LoginError, Region};
use ef_core::model::status;
use ef_core::profile::{profile_for, ValidationStatus};
use ef_core::river::{pack_name, BatteryCharge, FieldValue, RiverState};
use ef_core::session::route_plaintext_frame;
use ef_core::store::{default_region, parse_region, remove_device, rename_device, upsert_device, KnownDevice, SavedCreds};

#[test]
fn eu_region_url() {
    assert_eq!(Region::Eu.login_url(), "https://api-e.ecoflow.com/auth/login");
    assert_eq!(Region::Us.login_url(), "https://api-a.ecoflow.com/auth/login");
}

#[test]
fn extracts_user_id_from_success_body() {
    let body = r#"{"code":"0","data":{"user":{"userId":"123456789012345"}}}"#;
    assert_eq!(extract_user_id(body).unwrap(), "123456789012345");
}

#[test]
fn extracts_numeric_user_id() {
    let body = r#"{"code":"0","data":{"user":{"userId":123456789012345}}}"#;
    assert_eq!(extract_user_id(body).unwrap(), "123456789012345");
}

#[test]
fn error_body_is_err() {
    let body = r#"{"code":"7","message":"operator error"}"#;
    assert!(extract_user_id(body).is_err());
}

#[test]
fn login_errors_carry_code_and_message() {
    let body = r#"{"code":"7","message":"operator error"}"#;
    assert_eq!(
        extract_user_id(body),
        Err(LoginError::NoUserId { code: "\"7\"".to_string(), message: "operator error".to_string() })
    );
    assert_eq!(
        extract_user_id(r#"{"data":{"user":{"userId":""}}}"#),
        Err(LoginError::NoUserId { code: String::new(), message: "login failed".to_string() })
    );
    assert_eq!(extract_user_id("not json"), Err(LoginError::InvalidJson));
    assert_eq!(extract_user_id(r#"{"data":{"user":{"userId":-42}}}"#).unwrap(), "-42");
}

#[test]
fn default_region_is_eu() {
    assert_eq!(SavedCreds::default().region, "Eu");
    assert_eq!(default_region(), "Eu");
}

#[test]
fn parse_region_defaults_to_eu() {
    assert_eq!(parse_region("Us"), Region::Us);
    assert_eq!(parse_region("Eu"), Region::Eu);
    assert_eq!(parse_region("us"), Region::Eu);
}

fn dev(id: &str, label: &str) -> KnownDevice {
    KnownDevice {
        id: id.to_string(),
        label: label.to_string(),
        serial: Some(id.to_string()),
        address: Some("AA:BB".to_string()),
    }
}

#[test]
fn upsert_inserts_then_updates_in_place() {
    let mut list = Vec::new();
    upsert_device(&mut list, dev("R611", "Camper"));
    upsert_device(&mut list, dev("R601", "Home"));
    let mut d = dev("R611", "Van");
    d.address = Some("CC:DD".to_string());
    upsert_device(&mut list, d);
    assert_eq!(list.len(), 2);
    let r611 = list.iter().find(|d| d.id == "R611").unwrap();
    assert_eq!(r611.label, "Van");
    assert_eq!(r611.address.as_deref(), Some("CC:DD"));
    assert_eq!(list[0].id, "R611");
}

#[test]
fn rename_and_remove() {
    let mut list = Vec::new();
    upsert_device(&mut list, dev("R611", "Camper"));
    rename_device(&mut list, "R611", "Camper 2");
    assert_eq!(list[0].label, "Camper 2");
    rename_device(&mut list, "nope", "X");
    assert_eq!(list[0].label, "Camper 2");
    remove_device(&mut list, "R611");
    assert!(list.is_empty());
}

#[test]
fn status_labels_in_bit_order() {
    assert_eq!(status::labels(status::ONLINE | status::CHARGING), vec!["online", "charging"]);
    assert!(status::labels(0).is_empty());
    assert_eq!(status::labels(status::FAULT | status::ON_BATTERY), vec!["on_battery", "fault"]);
}

#[test]
fn river_serial_resolves_to_validated_profile() {
    let p = profile_for(Some("R601ZEB0000000A"), 0);
    assert_eq!(p.id(), "river");
    assert!(matches!(p.validation(), ValidationStatus::Validated));
}

#[test]
fn unknown_serial_is_beta() {
    let p = profile_for(Some("XX99"), 0);
    assert!(matches!(p.validation(), ValidationStatus::Beta));
    assert_eq!(profile_for(None, 0).id(), "generic-beta");
}

#[test]
fn river_decoder_accumulates_bms_soc() {
    let p = profile_for(Some("R601ZEB0000000A"), 0);
    let mut d = p.new_decoder(Some("R601ZEB0000000A".into()));
    let mut buf = vec![0u8; 69];
    buf[53..57].copy_from_slice(&84.5f32.to_le_bytes());
    d.update(0x03, 0x20, 0x32, &buf);
    assert_eq!(d.battery_charge(), Some(BatteryCharge::BmsF32Bits(84.5f32.to_bits())));
}

#[test]
fn unknown_route_is_none() {
    let mut st = RiverState::new(None);
    assert!(st.update(0x09, 0x20, 0x02, &[0u8; 40]).is_none());
    assert_eq!(pack_name(0x09, 0x20, 0x02), None);
    assert_eq!(pack_name(0x04, 0x77, 0x02), Some("INV"));
}

#[test]
fn settings_decode_from_config_packs() {
    let mut st = RiverState::new(None);
    let mut ems = vec![0u8; 46];
    ems[12] = 50;
    ems[43] = 30;
    st.update(0x03, 0x20, 0x02, &ems);
    let mut cfg = vec![0u8; 94];
    cfg[31] = 2;
    cfg[56] = 1;
    cfg[61..63].copy_from_slice(&6000u16.to_le_bytes());
    cfg[66] = 1;
    cfg[67] = 0;
    cfg[73..75].copy_from_slice(&500u16.to_le_bytes());
    cfg[75..77].copy_from_slice(&240u16.to_le_bytes());
    cfg[80..82].copy_from_slice(&1440u16.to_le_bytes());
    cfg[82..84].copy_from_slice(&1800u16.to_le_bytes());
    st.update(0x05, 0x20, 0x02, &cfg);
    let s = st.to_snapshot_core(false).settings;
    assert_eq!(s.charge_limit, Some(50));
    assert_eq!(s.discharge_limit, Some(30));
    assert_eq!(s.dc_mode, Some(2));
    assert_eq!(s.dc_enabled, Some(true));
    assert_eq!(s.car_input_ma, Some(6000));
    assert_eq!(s.ac_enabled, Some(true));
    assert_eq!(s.xboost_enabled, Some(false));
    assert_eq!(s.ac_charge_watts, Some(500));
    assert_eq!(s.ac_timeout_min, Some(240));
    assert_eq!(s.unit_timeout_min, Some(1440));
    assert_eq!(s.screen_timeout_sec, Some(1800));
}

#[test]
fn bms_soc_decodes_and_maps() {
    let mut st = RiverState::new(None);
    let mut p = vec![0u8; 69];
    p[53..57].copy_from_slice(&84.5f32.to_le_bytes());
    p[20] = 25;
    let fields = st.update(0x03, 0x20, 0x32, &p).unwrap();
    let snap = st.to_snapshot_core(false);
    assert_eq!(snap.battery_charge, Some(BatteryCharge::BmsF32Bits(84.5f32.to_bits())));
    assert_eq!(snap.temperature, Some(25));
    assert_eq!(fields[2], ("temp(°C)", FieldValue::U8(25)));
    assert_eq!(fields[3], ("f32ShowSoc", FieldValue::F32Bits(84.5f32.to_bits())));
}

#[test]
fn snapshot_flags_runtime_and_load() {
    let mut st = RiverState::new(Some("R611ABC".to_string()));
    let mut pd = vec![0u8; 30];
    pd[14] = 15;
    pd[15..17].copy_from_slice(&120u16.to_le_bytes());
    st.update(0x02, 0x20, 0x02, &pd);
    let mut ems = vec![0u8; 46];
    ems[21..25].copy_from_slice(&90u32.to_le_bytes());
    st.update(0x03, 0x20, 0x02, &ems);
    let mut inv = vec![0u8; 48];
    inv[11..13].copy_from_slice(&250u16.to_le_bytes());
    inv[22] = 50;
    st.update(0x04, 0x20, 0x02, &inv);
    let snap = st.to_snapshot_core(true);
    assert_eq!(snap.status_flags, status::LOW_BATTERY | status::ON_BATTERY | status::DISCHARGING);
    assert_eq!(snap.battery_runtime_s, Some(90 * 60));
    assert_eq!(snap.load_watts, Some((250, 500)));
    assert_eq!(snap.input_frequency, Some(50));
    assert_eq!(snap.battery_charge, Some(BatteryCharge::PdPercent(15)));
    assert_eq!(snap.output_power_w, Some(120));
}

#[test]
fn route_plaintext_frame_feeds_decoder() {
    let profile = profile_for(Some("R601ZEB0000000A"), 0);
    let mut decoder = profile.new_decoder(Some("R601ZEB0000000A".into()));
    let mut payload = vec![0u8; 69];
    payload[53..57].copy_from_slice(&90.0f32.to_le_bytes());
    let pkt = ef_core::packet::Packet::new(0x03, 0x21, 0x20, 0x32, payload, 2);
    let frame = pkt.to_bytes();
    let recognised = route_plaintext_frame(&mut decoder, &frame);
    assert!(recognised);
    assert_eq!(decoder.battery_charge(), Some(BatteryCharge::BmsF32Bits(90.0f32.to_bits())));
}

#[test]
fn login_request_encodes_password() {
    let r = login_request("a@b.c", "hunter2");
    assert_eq!(r.email, "a@b.c");
    assert_eq!(r.password, "aHVudGVyMg==");
    assert_eq!(login_request("x", "").password, "");
    assert_eq!(login_request("x", "ab").password, "YWI=");
    assert_eq!(login_request("x", "abc").password, "YWJj");
    assert_eq!(login_request("x", "\u{ff}\u{fe}").password, "w7/Dvg==");
    assert_eq!(r.scene, "IOT_APP");
    assert_eq!(r.user_type, "ECOFLOW");
}

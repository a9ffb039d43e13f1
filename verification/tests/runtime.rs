use ef_core::auth::HandshakeError;
use ef_core::command::{now_unix, unix_ts_from_secs};
use ef_core::manager::{account_id, device_uid, require_user_id};
use ef_core::profile::CoreError;

#[test]
fn uid_prefers_serial() {
    assert_eq!(device_uid("AA:BB".into(), Some("R611".into())), "R611");
    assert_eq!(device_uid("AA:BB".into(), None), "AA:BB");
}

#[test]
fn blank_user_ids_are_dropped() {
    assert_eq!(account_id(Some("  \t".into())), None);
    assert_eq!(account_id(Some("123".into())), Some("123".to_string()));
    assert_eq!(account_id(None), None);
    assert_eq!(require_user_id(&Some(" 42 ".to_string())), Ok(&" 42 ".to_string()));
    assert_eq!(require_user_id(&Some("\n".to_string())), Err(HandshakeError::MissingUserId));
    assert_eq!(require_user_id(&None), Err(HandshakeError::MissingUserId));
    // Unicode White_Space counts as blank; a zero-width space is not white space
    assert_eq!(account_id(Some("\u{3000}\u{85}\u{a0}".into())), None);
    assert_eq!(account_id(Some("\u{200b}".into())), Some("\u{200b}".to_string()));
}

#[test]
fn auth_timestamp_truncates_to_u32() {
    assert_eq!(unix_ts_from_secs(Some(0x1_2345_6789)), 0x2345_6789);
    assert_eq!(unix_ts_from_secs(None), 0);
    assert!(now_unix() > 1_600_000_000);
}

#[test]
fn core_error_message() {
    assert_eq!(CoreError::Unsupported.message(), "operation not supported by this profile");
}

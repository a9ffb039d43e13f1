use ef_core::handshake::{handshake_start, handshake_step, Handshake, HandshakeStep, UserIdPolicy};
use ef_core::encpacket::{encode_frame, FRAME_TYPE_COMMAND, FRAME_TYPE_PROTOCOL};
use ef_core::auth::{
    auth_status_packet, SessionCfg,
    auth_packet, device_pubkey, ecdh_session, ecdh_type_size, hex_upper_bytes, key_info_ciphertext,
    pubkey_hello, reply_packet, session_from_key_info, HandshakeError,
};
use ef_core::crypto::{md5, SessionKeyError};
use ef_core::packet::Packet;
use ef_core::secp160r1::{EcdhError, Ephemeral};
use ef_core::session::EncryptedStream;

const GX: [u8; 20] = [
    0x4a, 0x96, 0xb5, 0x68, 0x8e, 0xf5, 0x73, 0x28, 0x46, 0x64, 0x69, 0x89, 0x68, 0xc3, 0x8b, 0xb9,
    0x13, 0xcb, 0xfc, 0x82,
];
const GY: [u8; 20] = [
    0x23, 0xa6, 0x28, 0x55, 0x31, 0x68, 0x94, 0x7d, 0x59, 0xdc, 0xc9, 0x12, 0x04, 0x23, 0x51, 0x37,
    0x7a, 0xc5, 0xfb, 0x32,
];
const N: [u8; 21] = [
    0x01, 0x00, 0x00, 0x00, 0x00, 0x00, 0x00, 0x00, 0x00, 0x00, 0x01, 0xf4, 0xc8, 0xf9, 0x27, 0xae,
    0xd3, 0xca, 0x75, 0x22, 0x57,
];

fn scalar(v: u8) -> [u8; 21] {
    let mut b = [0u8; 21];
    b[20] = v;
    b
}

#[test]
fn scalar_one_gives_the_generator() {
    let e = Ephemeral::from_random(&scalar(1)).unwrap();
    assert_eq!(&e.public_key[..20], &GX);
    assert_eq!(&e.public_key[20..], &GY);
}

#[test]
fn order_kills_generator() {
    assert!(Ephemeral::from_random(&N).is_none());
    assert!(Ephemeral::from_random(&[0u8; 21]).is_none());
}

#[test]
fn generator_on_curve() {
    // 2G computed two ways: doubling G, and the public key of scalar 2.
    let one = Ephemeral::from_random(&scalar(1)).unwrap();
    let two = Ephemeral::from_random(&scalar(2)).unwrap();
    assert_eq!(two.shared_secret(&one.public_key).unwrap(), one.shared_secret(&two.public_key).unwrap());
}

#[test]
fn ecdh_is_symmetric() {
    let mut ka = [0u8; 21];
    let mut kb = [0u8; 21];
    for i in 0..21 {
        ka[i] = (i as u8).wrapping_mul(37).wrapping_add(11);
        kb[i] = (i as u8).wrapping_mul(91).wrapping_add(5);
    }
    let a = Ephemeral::from_random(&ka).unwrap();
    let b = Ephemeral::from_random(&kb).unwrap();
    let sa = a.shared_secret(&b.public_key).unwrap();
    let sb = b.shared_secret(&a.public_key).unwrap();
    assert_eq!(sa, sb);
    assert_eq!(a.shared_secret(&[0u8; 39]), Err(EcdhError::PeerKeyTooShort(39)));
}

#[test]
fn handshake_steps() {
    assert_eq!(ecdh_type_size(1), 52);
    assert_eq!(ecdh_type_size(4), 64);
    assert_eq!(ecdh_type_size(9), 40);
    assert_eq!(pubkey_hello(&[7, 8]), vec![1, 0, 7, 8]);
    assert_eq!(device_pubkey(&[1, 2]), Err(HandshakeError::ShortPubkeyResponse));
    let mut resp = vec![1, 0, 0];
    resp.extend(0u8..50);
    assert_eq!(device_pubkey(&resp).unwrap(), (0u8..40).collect::<Vec<u8>>());
    assert_eq!(key_info_ciphertext(&[3, 1]), Err(HandshakeError::KeyInfoType));
    assert_eq!(key_info_ciphertext(&[2, 1, 2]).unwrap(), vec![1, 2]);
    let (_, iv) = ecdh_session(&[9u8; 20]);
    assert_eq!(iv, md5(&[9u8; 20]));
    assert!(matches!(session_from_key_info(&[0u8; 100], &[0u8; 17], iv), Err(HandshakeError::KeyInfoTooShort)));
    // seed bytes 16..18 = [0x01, 0x01]: window at 0x10, past a 0x0c-byte table
    let mut info = [0u8; 18];
    info[16] = 0x01;
    info[17] = 0x01;
    assert!(matches!(
        session_from_key_info(&[0u8; 0x0c], &info, iv),
        Err(HandshakeError::SessionKey(SessionKeyError::KeydataOutOfRange(0x10)))
    ));
    // second half of the window (0x18) is past a 0x18-byte table
    assert!(matches!(
        session_from_key_info(&[0u8; 0x18], &info, iv),
        Err(HandshakeError::SessionKey(SessionKeyError::KeydataOutOfRange(0x18)))
    ));
    assert!(session_from_key_info(&[0u8; 0x20], &info, iv).is_ok());
    assert_eq!(hex_upper_bytes(&[0xab, 0x01]), b"AB01".to_vec());
    let p = auth_packet("u", "s", 0x35, 3);
    assert_eq!(p.payload, hex::encode_upper(md5(b"us")).into_bytes());
    let q = reply_packet(&Packet::new(1, 2, 3, 4, vec![5], 2));
    assert_eq!((q.src, q.dst, q.payload.clone()), (2, 1, vec![5]));
}

#[test]
fn encrypted_stream_swallows_first_auth_reply() {
    let mut st = EncryptedStream::new();
    let auth = Packet::new(0x35, 0x21, 0x35, 0x86, vec![], 3);
    let a = st.on_packet(&auth, 0x35);
    assert!(a.signal_authenticated && !a.ingest && !a.reply);
    let tele = Packet::new(0x02, 0x21, 0x20, 0x02, vec![], 3);
    let b = st.on_packet(&tele, 0x35);
    assert!(!b.signal_authenticated && b.ingest && b.reply);
    let c = st.on_packet(&auth, 0x35);
    assert!(c.ingest && !c.reply);
}

fn cfg(user_id: Option<&str>) -> SessionCfg {
    SessionCfg {
        user_id: user_id.map(|u| u.to_string()),
        serial: "R601ZEB4XE123456".to_string(),
        packet_version: 3,
        auth_header_dst: 0x35,
    }
}

#[test]
fn handshake_runs_in_order() {
    let me = Ephemeral::from_random(&scalar(3)).unwrap();
    let my_pub = me.public_key;
    assert!(matches!(
        handshake_start(5, Ephemeral::from_random(&scalar(3)).unwrap()),
        Err(HandshakeError::WrongEncryptType(5))
    ));
    let (next, frame) = match handshake_start(7, me) {
        Ok(HandshakeStep::Send { next, frame, timeout_s: 20, reply_required: true }) => (next, frame),
        _ => panic!("expected the public-key hello"),
    };
    let mut hello = vec![1u8, 0];
    hello.extend_from_slice(&my_pub);
    assert_eq!(frame, encode_frame(FRAME_TYPE_COMMAND, &hello, None));
    assert!(matches!(next, Handshake::AwaitPubkey(_)));

    // the device answers with its own public key (curve byte 9: 40 key bytes)
    let device = Ephemeral::from_random(&scalar(5)).unwrap();
    let mut resp = vec![1u8, 0, 9];
    resp.extend_from_slice(&device.public_key);
    let c = cfg(Some("user"));
    let (next, frame) = match handshake_step(next, Some(resp.as_slice()), &c, &[0u8; 0x20], UserIdPolicy::Required) {
        Ok(HandshakeStep::Send { next, frame, timeout_s: 20, reply_required: true }) => (next, frame),
        _ => panic!("expected the key-info request"),
    };
    assert_eq!(frame, encode_frame(FRAME_TYPE_COMMAND, &[0x02], None));
    let (ecdh, iv) = match next {
        Handshake::AwaitKeyInfo(ecdh, iv) => (ecdh, iv),
        _ => panic!("expected to await the key info"),
    };
    let shared = device.shared_secret(&my_pub).unwrap();
    assert_eq!(iv, md5(&shared));

    // key info: srand, then seed [1, 1] (table window at 0x10)
    let mut info = vec![0x42u8; 16];
    info.extend_from_slice(&[0x01, 0x01]);
    let mut resp = vec![0x02u8];
    resp.extend_from_slice(&ecdh.encrypt(&info));
    let keydata: Vec<u8> = (0u8..0x20).collect();
    let (next, frame) = match handshake_step(
        Handshake::AwaitKeyInfo(ecdh, iv),
        Some(resp.as_slice()),
        &c,
        &keydata,
        UserIdPolicy::Required,
    ) {
        Ok(HandshakeStep::Send { next, frame, timeout_s: 5, reply_required: false }) => (next, frame),
        _ => panic!("expected the auth-status packet"),
    };
    let session = match next {
        Handshake::AwaitAuthStatus(s) => s,
        _ => panic!("expected to await the auth-status reply"),
    };
    let status = auth_status_packet(0x35, 3).to_bytes();
    assert_eq!(frame, encode_frame(FRAME_TYPE_PROTOCOL, &status, Some(&session)));

    // the auth step: probe mode stops, a required User ID must be there
    let s2 = session.clone();
    assert!(matches!(
        handshake_step(Handshake::AwaitAuthStatus(s2), None, &cfg(None), &keydata, UserIdPolicy::ProbeWithout),
        Ok(HandshakeStep::Probed)
    ));
    let s3 = session.clone();
    assert!(matches!(
        handshake_step(Handshake::AwaitAuthStatus(s3), None, &cfg(Some("  ")), &keydata, UserIdPolicy::Required),
        Err(HandshakeError::MissingUserId)
    ));
    let auth = auth_packet("user", "R601ZEB4XE123456", 0x35, 3).to_bytes();
    match handshake_step(Handshake::AwaitAuthStatus(session), None, &c, &keydata, UserIdPolicy::Required) {
        Ok(HandshakeStep::Established { session, frame }) => {
            assert_eq!(frame, encode_frame(FRAME_TYPE_PROTOCOL, &auth, Some(&session)));
        }
        _ => panic!("expected the auth packet"),
    }
}

#[test]
fn handshake_rejects_short_pubkey_response() {
    let me = Ephemeral::from_random(&scalar(3)).unwrap();
    let r = handshake_step(Handshake::AwaitPubkey(me), Some(&[1u8, 0][..]), &cfg(None), &[], UserIdPolicy::ProbeWithout);
    assert!(matches!(r, Err(HandshakeError::ShortPubkeyResponse)));
    let me = Ephemeral::from_random(&scalar(3)).unwrap();
    let r = handshake_step(Handshake::AwaitPubkey(me), Some(&[1u8, 0, 9, 7][..]), &cfg(None), &[], UserIdPolicy::ProbeWithout);
    assert!(matches!(r, Err(HandshakeError::Ecdh(EcdhError::PeerKeyTooShort(1)))));
}

use ef_core::command::{build_command_frame, build_plaintext_auth, is_ack_for, Command};
use ef_core::crc::{crc16, crc8};
use ef_core::crypto::{gen_session_key, md5, SessionKeyError, Type7};
use ef_core::encpacket::{encode_frame, FrameReader, FRAME_TYPE_COMMAND, FRAME_TYPE_PROTOCOL};
use ef_core::keydata::{get8, KEYDATA_LEN};
use ef_core::packet::{Packet, PacketReader};

#[test]
fn crc16_arc_check_vector() {
    assert_eq!(crc16(b"123456789"), 0xBB3D);
}

#[test]
fn crc8_check_vector() {
    assert_eq!(crc8(b"123456789"), 0xF4);
}

#[test]
fn crc_of_empty_input_is_zero() {
    assert_eq!(crc8(b""), 0);
    assert_eq!(crc16(b""), 0);
}

#[test]
fn v2_roundtrip() {
    let p = Packet::new(0x21, 0x35, 0x35, 0x86, vec![1, 2, 3, 4], 2);
    let bytes = p.to_bytes();
    let parsed = Packet::from_bytes(&bytes).expect("parse");
    assert_eq!(parsed.src, 0x21);
    assert_eq!(parsed.dst, 0x35);
    assert_eq!(parsed.cmd_set, 0x35);
    assert_eq!(parsed.cmd_id, 0x86);
    assert_eq!(parsed.payload, vec![1, 2, 3, 4]);
}

#[test]
fn v3_roundtrip() {
    let p = Packet::new(0x21, 0x35, 0x20, 0x02, vec![9, 8, 7], 3);
    let bytes = p.to_bytes();
    let parsed = Packet::from_bytes(&bytes).expect("parse");
    assert_eq!(parsed.cmd_set, 0x20);
    assert_eq!(parsed.cmd_id, 0x02);
    assert_eq!(parsed.payload, vec![9, 8, 7]);
}

#[test]
fn v3_roundtrip_keeps_extended_addresses() {
    let mut p = Packet::new(0x21, 0x35, 0x20, 0x02, vec![5], 3);
    p.dsrc = 7;
    p.ddst = 9;
    let parsed = Packet::from_bytes(&p.to_bytes()).expect("parse");
    assert_eq!((parsed.dsrc, parsed.ddst), (7, 9));
    let parsed2 = Packet::from_bytes(&Packet::new(1, 2, 3, 4, vec![5], 2).to_bytes()).unwrap();
    assert_eq!((parsed2.dsrc, parsed2.ddst), (0, 0));
}

#[test]
fn parse_rejects_bad_crc_and_unknown_versions() {
    let mut bytes = Packet::new(0x21, 0x35, 0x20, 0x02, vec![1, 2], 2).to_bytes();
    let n = bytes.len();
    bytes[n - 1] ^= 0xff;
    assert!(Packet::from_bytes(&bytes).is_none());
    let v4 = Packet::new(0x21, 0x35, 0x20, 0x02, vec![1, 2], 4).to_bytes();
    assert!(Packet::from_bytes(&v4).is_none());
    assert!(Packet::from_bytes(&[]).is_none());
    assert!(Packet::from_bytes(&[0xAA]).is_none());
    assert!(Packet::from_bytes(&[0x55, 0x02]).is_none());
    let mut header = Packet::new(0x21, 0x35, 0x20, 0x02, vec![1, 2], 2).to_bytes();
    header[4] ^= 0x01;
    assert!(Packet::from_bytes(&header).is_none());
}

#[test]
fn parse_unmasks_payload_with_seq_byte() {
    let mut p = Packet::new(0x02, 0x21, 0x20, 0x02, vec![0x10, 0x20], 2);
    p.seq = [0x0f, 0, 0, 0];
    let parsed = Packet::from_bytes(&p.to_bytes()).unwrap();
    assert_eq!(parsed.payload, vec![0x1f, 0x2f]);
    assert_eq!(parsed.seq, [0x0f, 0, 0, 0]);
}

#[test]
fn reader_reassembles_split_and_concatenated_packets() {
    let a = Packet::new(0x02, 0x21, 0x20, 0x02, vec![1, 2, 3], 2).to_bytes();
    let b = Packet::new(0x03, 0x21, 0x20, 0x32, vec![4, 5], 3).to_bytes();
    let mut stream = vec![0x00, 0x13];
    stream.extend_from_slice(&a);
    stream.extend_from_slice(&b);
    let mut r = PacketReader::new();
    let (first, second) = stream.split_at(10);
    assert!(r.push(first).is_empty());
    let frames = r.push(second);
    assert_eq!(frames, vec![a, b]);
    assert!(r.push(&[]).is_empty());
}

#[test]
fn ack_matches_same_cmd_ids() {
    let pkt = Packet::new(0x35, 0x21, 0x20, 0x66, vec![], 2);
    assert!(is_ack_for(&pkt, 0x20, 0x66));
    assert!(!is_ack_for(&pkt, 0x20, 0x02));
}

#[test]
fn ac_output_on_matches_captured_frame() {
    assert_eq!(
        hex::encode(Command::AcOutput(true).to_frame()),
        "aa020700de0d0000000000002105204201ffffffffffff6b11"
    );
}

#[test]
fn ac_output_off_matches_captured_frame() {
    assert_eq!(
        hex::encode(Command::AcOutput(false).to_frame()),
        "aa020700de0d0000000000002105204200ffffffffffff7bd1"
    );
}

#[test]
fn plaintext_auth_matches_captured_frame() {
    let frame = build_plaintext_auth("2075587123161088002", 0x6a53_e9eb);
    assert_eq!(
        hex::encode(frame),
        "aa034500c40d0000000000002135010135a80132303735353837313233313631303838303032000000000000000000000000000000000000000000000000000000000000000000000000000000000000000000ebe9536a334a"
    );
}

#[test]
fn plaintext_auth_truncates_long_user_ids() {
    let id = "x".repeat(80);
    let frame = build_plaintext_auth(&id, 1);
    let pkt = Packet::from_bytes(&frame).unwrap();
    assert_eq!(pkt.payload.len(), 69);
    assert!(pkt.payload[1..65].iter().all(|&b| b == b'x'));
    assert_eq!(&pkt.payload[65..], &[1, 0, 0, 0]);
}

#[test]
fn commands_round_trip_through_packet_parser() {
    let cases: &[(Command, u8, u8, &[u8])] = &[
        (Command::XBoost(true), 0x05, 0x42, &[0xff, 0x01, 0xff, 0xff, 0xff, 0xff, 0xff]),
        (Command::DcOutput(true), 0x05, 0x51, &[0x01]),
        (Command::DcMode(2), 0x05, 0x52, &[0x02]),
        (Command::AcChargeWatts(500), 0x05, 0x45, &[0xf4, 0x01, 0xff]),
        (Command::CarInputMilliamps(6000), 0x05, 0x47, &[0x70, 0x17, 0x00, 0x00]),
        (Command::ChargeLimit(50), 0x03, 0x31, &[0x32]),
        (Command::DischargeLimit(30), 0x03, 0x33, &[0x1e]),
        (Command::UnitTimeoutMinutes(1440), 0x05, 0x21, &[0xa0, 0x05]),
        (Command::ScreenTimeoutSeconds(1800), 0x05, 0x27, &[0x08, 0x07, 0xff]),
        (Command::AcTimeoutMinutes(240), 0x05, 0x99, &[0xf0, 0x00]),
    ];
    for (cmd, dst, cmd_id, payload) in cases {
        let pkt = Packet::from_bytes(&cmd.to_frame())
            .unwrap_or_else(|| panic!("{cmd:?} did not parse"));
        assert_eq!(pkt.src, 0x21, "{cmd:?} src");
        assert_eq!(pkt.dst, *dst, "{cmd:?} dst");
        assert_eq!(pkt.cmd_set, 0x20, "{cmd:?} cmd_set");
        assert_eq!(pkt.cmd_id, *cmd_id, "{cmd:?} cmd_id");
        assert_eq!(pkt.payload, *payload, "{cmd:?} payload");
    }
}

#[test]
fn command_frame_roundtrips_through_session() {
    let session = Type7::new([0x11; 16], [0x22; 16]);
    let frame = build_command_frame(&session, 0x20, 0x66, vec![1, 2, 3], 2, 0x35);
    let mut reader = FrameReader::new();
    let frames = reader.push(&frame);
    assert_eq!(frames.len(), 1);
    let inner = session.decrypt(&frames[0]);
    let pkt = Packet::from_bytes(&inner).expect("inner packet parses");
    assert_eq!(pkt.cmd_set, 0x20);
    assert_eq!(pkt.cmd_id, 0x66);
    assert_eq!(pkt.payload, vec![1, 2, 3]);
}

#[test]
fn aes_cbc_roundtrip() {
    let t = Type7::new([0x11; 16], [0x22; 16]);
    let pt = b"hello ecoflow, this is a test payload";
    let ct = t.encrypt(pt);
    assert_eq!(ct.len(), 48);
    assert_ne!(&ct[..pt.len().min(ct.len())], &pt[..]);
    assert_eq!(t.decrypt(&ct), pt);
}

#[test]
fn decrypt_keeps_short_input_and_drops_partial_block() {
    let t = Type7::new([0x11; 16], [0x22; 16]);
    assert_eq!(t.decrypt(&[1, 2, 3]), vec![1, 2, 3]);
    let mut ct = t.encrypt(b"0123456789abcdef0123");
    assert_eq!(ct.len(), 32);
    ct.extend_from_slice(&[9, 9, 9]);
    assert_eq!(t.decrypt(&ct), b"0123456789abcdef0123");
}

#[test]
fn md5_known() {
    assert_eq!(hex::encode(md5(b"")), "d41d8cd98f00b204e9800998ecf8427e");
}

#[test]
fn session_key_is_deterministic() {
    let keydata = vec![0x5au8; KEYDATA_LEN];
    let sk1 = gen_session_key(&keydata, [0x01, 0x01], &[0xAB; 16]).unwrap();
    let sk2 = gen_session_key(&keydata, [0x01, 0x01], &[0xAB; 16]).unwrap();
    assert_eq!(sk1, sk2);
}

#[test]
fn session_key_is_md5_of_table_window_and_srand() {
    let keydata: Vec<u8> = (0..KEYDATA_LEN).map(|i| (i % 251) as u8).collect();
    // seed [2, 3]: pos = 2 * 0x10 + 2 * 0x100 = 0x220
    let sk = gen_session_key(&keydata, [0x02, 0x03], &[0xAB; 20]).unwrap();
    let mut data = keydata[0x220..0x230].to_vec();
    data.extend_from_slice(&[0xAB; 16]);
    assert_eq!(sk, md5(&data));
}

#[test]
fn session_key_errors() {
    let keydata = vec![0u8; KEYDATA_LEN];
    assert_eq!(gen_session_key(&keydata, [1, 1], &[0; 15]), Err(SessionKeyError::SrandTooShort(15)));
    // seed [0xff, 0x00]: pos = 0xff0 + 0xff00 = 0x10ef0, past the table
    assert_eq!(
        gen_session_key(&keydata, [0xff, 0x00], &[0; 16]),
        Err(SessionKeyError::KeydataOutOfRange(0x10ef0))
    );
    let short = vec![0u8; 0x18];
    assert_eq!(
        gen_session_key(&short, [0x01, 0x01], &[0; 16]),
        Err(SessionKeyError::KeydataOutOfRange(0x18))
    );
}

#[test]
fn get8_window() {
    let table: Vec<u8> = (0u8..20).collect();
    assert_eq!(get8(&table, 12), Some([12, 13, 14, 15, 16, 17, 18, 19]));
    assert_eq!(get8(&table, 13), None);
    assert_eq!(get8(&table, usize::MAX - 3), None);
}

#[test]
fn encode_then_reassemble_plaintext() {
    let inner = b"\x01\x00abcdef";
    let frame = encode_frame(FRAME_TYPE_COMMAND, inner, None);
    let mut r = FrameReader::new();
    let frames = r.push(&frame);
    assert_eq!(frames.len(), 1);
    assert_eq!(frames[0], inner);
}

#[test]
fn split_across_notifications() {
    let inner = b"hello-frame-payload";
    let frame = encode_frame(FRAME_TYPE_COMMAND, inner, None);
    let mut r = FrameReader::new();
    let (a, b) = frame.split_at(5);
    assert!(r.push(a).is_empty());
    let frames = r.push(b);
    assert_eq!(frames.len(), 1);
    assert_eq!(frames[0], inner);
}

#[test]
fn encrypted_roundtrip() {
    let cipher = Type7::new([0x33; 16], [0x44; 16]);
    let inner = b"encrypted inner packet bytes";
    let frame = encode_frame(FRAME_TYPE_PROTOCOL, inner, Some(&cipher));
    let mut r = FrameReader::new();
    let frames = r.push(&frame);
    assert_eq!(frames.len(), 1);
    assert_eq!(cipher.decrypt(&frames[0]), inner);
}

#[test]
fn frame_reader_skips_bad_crc_and_short_length_field() {
    let mut bad = encode_frame(FRAME_TYPE_COMMAND, b"abc", None);
    let n = bad.len();
    bad[n - 1] ^= 0xff;
    let good = encode_frame(FRAME_TYPE_COMMAND, b"xyz", None);
    let mut stream = bad.clone();
    stream.extend_from_slice(&good);
    let mut r = FrameReader::new();
    assert_eq!(r.push(&stream), vec![b"xyz".to_vec()]);
    let mut r2 = FrameReader::new();
    assert!(r2.push(&[0x5a, 0x5a, 0x00, 0x01, 0x00, 0x00, 0x11, 0x22]).is_empty());
    let mut r3 = FrameReader::new();
    assert!(r3.push(&[0x5a, 0x5a, 0, 1, 0, 0, 0, 0]).is_empty());
    assert_eq!(r3.push(&good), vec![b"xyz".to_vec()]);
    let mut r4 = FrameReader::new();
    let mut short_then_good = vec![0x5a, 0x5a, 0x00, 0x01, 0x01, 0x00, 0x00, 0x00];
    short_then_good.extend_from_slice(&good);
    assert_eq!(r4.push(&short_then_good), vec![b"xyz".to_vec()]);
}

#[test]
fn crc16_residue_of_appended_checksum_is_zero() {
    for msg in [&b""[..], &b"123456789"[..], &[0xaa, 0x02, 0x00, 0x01][..]] {
        let mut framed = msg.to_vec();
        framed.extend_from_slice(&crc16(msg).to_le_bytes());
        assert_eq!(crc16(&framed), 0);
    }
}

#[test]
fn crc16_is_linear_over_xor() {
    let a = b"123456789";
    let b = b"abcdefghi";
    let x: Vec<u8> = a.iter().zip(b.iter()).map(|(p, q)| p ^ q).collect();
    assert_eq!(crc16(&x), crc16(a) ^ crc16(b));
    assert_eq!(crc16(&[0u8; 9]), 0);
}

#[test]
fn reader_output_does_not_depend_on_chunking() {
    let a = Packet::new(0x02, 0x21, 0x20, 0x02, vec![1, 2, 3], 2).to_bytes();
    let b = Packet::new(0x03, 0x21, 0x20, 0x32, vec![4, 5], 3).to_bytes();
    let mut stream = vec![0x00, 0xaa, 0x13];
    stream.extend_from_slice(&a);
    stream.push(0x77);
    stream.extend_from_slice(&b);
    let mut whole = PacketReader::new();
    let all = whole.push(&stream);
    assert_eq!(all, vec![a, b]);
    for cuts in [vec![1usize, 7, 20], vec![3, 4, 5, 30], vec![0, 0, 40]] {
        let mut r = PacketReader::new();
        let mut got = Vec::new();
        let mut start = 0;
        for c in cuts {
            let end = (start + c).min(stream.len());
            got.extend(r.push(&stream[start..end]));
            start = end;
        }
        got.extend(r.push(&stream[start..]));
        assert_eq!(got, all);
    }
}

#[test]
fn frame_split_at_any_point_reassembles() {
    let inner = b"split-me";
    let frame = encode_frame(FRAME_TYPE_COMMAND, inner, None);
    for k in 0..=frame.len() {
        let mut r = FrameReader::new();
        let mut got = r.push(&frame[..k]);
        got.extend(r.push(&frame[k..]));
        assert_eq!(got, vec![inner.to_vec()]);
    }
    // noise ending in a lone 0x5A that starts the next frame
    let mut r = FrameReader::new();
    assert!(r.push(&[0x01, 0x02, 0x5a]).is_empty());
    assert_eq!(r.push(&frame[1..]), vec![inner.to_vec()]);
    // a trailing byte that is not 0x5A is not kept
    let mut r = FrameReader::new();
    assert!(r.push(&[0x5a, 0x01]).is_empty());
    assert!(r.push(&[0x5a]).is_empty());
    assert!(r.push(&frame[..1]).is_empty());
}

#[test]
fn distinct_commands_encode_to_distinct_frames() {
    let cmds = [
        Command::AcOutput(true),
        Command::AcOutput(false),
        Command::XBoost(true),
        Command::XBoost(false),
        Command::DcOutput(true),
        Command::DcMode(1),
        Command::AcChargeWatts(300),
        Command::AcChargeWatts(301),
        Command::CarInputMilliamps(8000),
        Command::ChargeLimit(80),
        Command::DischargeLimit(80),
        Command::UnitTimeoutMinutes(30),
        Command::ScreenTimeoutSeconds(30),
        Command::AcTimeoutMinutes(30),
    ];
    for (i, a) in cmds.iter().enumerate() {
        for (j, b) in cmds.iter().enumerate() {
            assert_eq!(i == j, a.to_frame() == b.to_frame());
        }
    }
}

//! Encoding of control commands.
//!
//! River 2 accepts control over the plaintext AA protocol. Every command is a V2 packet
//! from the host (`0x21`) with `cmd_set 0x20`; the module address (`dst`) selects the
//! PD/inverter (`0x05`) or the BMS (`0x03`). The app also logs in first with a plaintext
//! auth packet carrying the account User ID, built by [`build_plaintext_auth`].
//!
//! The encrypted [`build_command_frame`] path is retained for devices that speak the
//! 0x5A5A protocol.
use vstd::prelude::*;
use vstd::string::StringSliceAdditionalSpecFns;

use crate::bytes::{
    le_u16, le_u32, lemma_u16_le_roundtrip, lemma_u32_le_roundtrip, u16_le, u16_to_le, u32_le, u32_to_le,
};
use crate::crypto::{aes128_cbc_pkcs7_encrypt, type7_decrypt_spec, Type7};
use crate::encpacket::{encode_frame, frame_spec, FRAME_TYPE_PROTOCOL};
use crate::packet::{
    decoded_view, encode_spec, lemma_parse_encode_roundtrip, parse_spec, Packet, PacketView,
};

verus! {

/// Host address used as the source of every app-originated packet.
pub const HOST_SRC: u8 = 0x21;
/// Control command set for River 2.
pub const CMD_SET: u8 = 0x20;
/// PD / inverter module (AC, DC, charging, timeouts).
pub const DST_PD: u8 = 0x05;
/// Battery management system (state-of-charge limits).
pub const DST_BMS: u8 = 0x03;

/// A River 2 control command. Each variant encodes to a `(dst, cmd_id, payload)` triple
/// and then to a plaintext AA frame via [`Command::to_frame`].
#[derive(Debug, Clone, Copy, PartialEq, Eq)]
pub enum Command {
    /// AC inverter output on/off.
    AcOutput(bool),
    /// X-Boost on/off.
    XBoost(bool),
    /// DC (12V) output on/off.
    DcOutput(bool),
    /// DC output mode (0, 1 or 2).
    DcMode(u8),
    /// AC charging speed, in watts.
    AcChargeWatts(u16),
    /// Car / DC input current, in milliamps.
    CarInputMilliamps(u32),
    /// Charge limit (maximum state of charge), percent.
    ChargeLimit(u8),
    /// Discharge limit (minimum state of charge), percent.
    DischargeLimit(u8),
    /// Unit standby timeout, in minutes (0 disables).
    UnitTimeoutMinutes(u16),
    /// Screen (LCD) timeout, in seconds (0 disables).
    ScreenTimeoutSeconds(u16),
    /// AC standby timeout, in minutes (0 disables).
    AcTimeoutMinutes(u16),
}

/// A state byte: 1 for on, 0 for off.
pub open spec fn flag_byte(on: bool) -> u8 {
    if on {
        1
    } else {
        0
    }
}

/// The module address, command id and payload of a command. `0xff` in the AC slots means
/// "leave that setting unchanged", so AC and X-Boost share cmd_id 0x42.
pub open spec fn command_encoding(c: Command) -> (u8, u8, Seq<u8>) {
    match c {
        Command::AcOutput(on) => (DST_PD, 0x42, seq![flag_byte(on), 0xffu8, 0xff, 0xff, 0xff, 0xff, 0xff]),
        Command::XBoost(on) => (DST_PD, 0x42, seq![0xffu8, flag_byte(on), 0xff, 0xff, 0xff, 0xff, 0xff]),
        Command::DcOutput(on) => (DST_PD, 0x51, seq![flag_byte(on)]),
        Command::DcMode(mode) => (DST_PD, 0x52, seq![mode]),
        Command::AcChargeWatts(w) => (DST_PD, 0x45, u16_le(w).push(0xff)),
        Command::CarInputMilliamps(ma) => (DST_PD, 0x47, u32_le(ma)),
        Command::ChargeLimit(pct) => (DST_BMS, 0x31, seq![pct]),
        Command::DischargeLimit(pct) => (DST_BMS, 0x33, seq![pct]),
        Command::UnitTimeoutMinutes(m) => (DST_PD, 0x21, u16_le(m)),
        Command::ScreenTimeoutSeconds(s) => (DST_PD, 0x27, u16_le(s).push(0xff)),
        Command::AcTimeoutMinutes(m) => (DST_PD, 0x99, u16_le(m)),
    }
}

/// The V2 packet a command is sent in.
pub open spec fn command_packet(c: Command) -> PacketView {
    let (dst, cmd_id, payload) = command_encoding(c);
    PacketView {
        src: HOST_SRC,
        dst,
        cmd_set: CMD_SET,
        cmd_id,
        payload,
        dsrc: 1,
        ddst: 1,
        version: 2,
        seq: seq![0u8, 0u8, 0u8, 0u8],
        product_id: 0,
    }
}

fn flag(on: bool) -> (b: u8)
    ensures
        b == flag_byte(on),
{
    if on {
        1
    } else {
        0
    }
}

fn u16_payload(v: u16, trailer: bool) -> (p: Vec<u8>)
    ensures
        trailer ==> p@ == u16_le(v).push(0xff),
        !trailer ==> p@ == u16_le(v),
{
    let (a, b) = u16_to_le(v);
    let mut p: Vec<u8> = Vec::new();
    p.push(a);
    p.push(b);
    if trailer {
        p.push(0xff);
    }
    proof {
        if trailer {
            assert(p@ =~= u16_le(v).push(0xff));
        } else {
            assert(p@ =~= u16_le(v));
        }
    }
    p
}

impl Command {
    /// Resolve to the module address, command id and payload bytes.
    fn encode(self) -> (r: (u8, u8, Vec<u8>))
        ensures
            (r.0, r.1, r.2@) == command_encoding(self),
    {
        match self {
            Command::AcOutput(on) => {
                let p = vec![flag(on), 0xff, 0xff, 0xff, 0xff, 0xff, 0xff];
                proof {
                    assert(p@ =~= command_encoding(self).2);
                }
                (DST_PD, 0x42, p)
            },
            Command::XBoost(on) => {
                let p = vec![0xff, flag(on), 0xff, 0xff, 0xff, 0xff, 0xff];
                proof {
                    assert(p@ =~= command_encoding(self).2);
                }
                (DST_PD, 0x42, p)
            },
            Command::DcOutput(on) => {
                let p = vec![flag(on)];
                proof {
                    assert(p@ =~= command_encoding(self).2);
                }
                (DST_PD, 0x51, p)
            },
            Command::DcMode(mode) => {
                let p = vec![mode];
                proof {
                    assert(p@ =~= command_encoding(self).2);
                }
                (DST_PD, 0x52, p)
            },
            Command::AcChargeWatts(watts) => (DST_PD, 0x45, u16_payload(watts, true)),
            Command::CarInputMilliamps(ma) => (DST_PD, 0x47, u32_to_le(ma)),
            Command::ChargeLimit(pct) => {
                let p = vec![pct];
                proof {
                    assert(p@ =~= command_encoding(self).2);
                }
                (DST_BMS, 0x31, p)
            },
            Command::DischargeLimit(pct) => {
                let p = vec![pct];
                proof {
                    assert(p@ =~= command_encoding(self).2);
                }
                (DST_BMS, 0x33, p)
            },
            Command::UnitTimeoutMinutes(m) => (DST_PD, 0x21, u16_payload(m, false)),
            Command::ScreenTimeoutSeconds(s) => (DST_PD, 0x27, u16_payload(s, true)),
            Command::AcTimeoutMinutes(m) => (DST_PD, 0x99, u16_payload(m, false)),
        }
    }

    /// Build the plaintext AA frame to write for this command.
    pub fn to_frame(self) -> (r: Vec<u8>)
        ensures
            r@ == encode_spec(command_packet(self)),
    {
        let (dst, cmd_id, payload) = self.encode();
        Packet::new(HOST_SRC, dst, CMD_SET, cmd_id, payload, 2).to_bytes()
    }
}

/// Every command frame parses back to the module, command id and payload it encodes,
/// from the host, in command set 0x20.
pub proof fn lemma_command_frame_parses(c: Command)
    ensures
        parse_spec(encode_spec(command_packet(c))) == Some(
            PacketView {
                src: HOST_SRC,
                dst: command_encoding(c).0,
                cmd_set: CMD_SET,
                cmd_id: command_encoding(c).1,
                payload: command_encoding(c).2,
                dsrc: 0,
                ddst: 0,
                version: 2,
                seq: seq![0u8, 0u8, 0u8, 0u8],
                product_id: 0,
            },
        ),
{
    let p = command_packet(c);
    assert(p.payload.len() <= 7);
    assert((2u8 & 0x0f) == 2 && (2u8 & 0x10) == 0) by (bit_vector);
    lemma_parse_encode_roundtrip(p);
    assert(decoded_view(p).payload =~= p.payload);
}

/// Distinct commands never share an encoding: their module, command id and payload
/// differ, and so do the frames written for them.
pub proof fn lemma_command_encoding_injective(c1: Command, c2: Command)
    ensures
        c1 != c2 ==> command_encoding(c1) != command_encoding(c2),
        c1 != c2 ==> encode_spec(command_packet(c1)) != encode_spec(command_packet(c2)),
{
    if command_encoding(c1) == command_encoding(c2) {
        let p1 = command_encoding(c1).2;
        let p2 = command_encoding(c2).2;
        assert(p1 == p2);
        match (c1, c2) {
            (Command::AcChargeWatts(a), Command::AcChargeWatts(b)) => {
                lemma_u16_le_roundtrip(a);
                lemma_u16_le_roundtrip(b);
                assert(p1[0] == u16_le(a)[0] && p1[1] == u16_le(a)[1]);
                assert(p2[0] == u16_le(b)[0] && p2[1] == u16_le(b)[1]);
            },
            (Command::ScreenTimeoutSeconds(a), Command::ScreenTimeoutSeconds(b)) => {
                lemma_u16_le_roundtrip(a);
                lemma_u16_le_roundtrip(b);
                assert(p1[0] == u16_le(a)[0] && p1[1] == u16_le(a)[1]);
                assert(p2[0] == u16_le(b)[0] && p2[1] == u16_le(b)[1]);
            },
            (Command::UnitTimeoutMinutes(a), Command::UnitTimeoutMinutes(b)) => {
                lemma_u16_le_roundtrip(a);
                lemma_u16_le_roundtrip(b);
            },
            (Command::AcTimeoutMinutes(a), Command::AcTimeoutMinutes(b)) => {
                lemma_u16_le_roundtrip(a);
                lemma_u16_le_roundtrip(b);
            },
            (Command::CarInputMilliamps(a), Command::CarInputMilliamps(b)) => {
                lemma_u32_le_roundtrip(a);
                lemma_u32_le_roundtrip(b);
            },
            (Command::AcOutput(_), _) | (Command::XBoost(_), _) | (Command::DcOutput(_), _) => {
                assert(p1[0] == p2[0]);
            },
            _ => {
                assert(p1[0] == p2[0]);
            },
        }
    }
    if encode_spec(command_packet(c1)) == encode_spec(command_packet(c2)) {
        lemma_command_frame_parses(c1);
        lemma_command_frame_parses(c2);
        assert(command_encoding(c1) == command_encoding(c2));
    }
}

/// What each command writes, stated by slot. The PD module (0x05) takes AC and X-Boost
/// under cmd_id 0x42 in a 7-byte payload: the AC state in slot 0 or the X-Boost state in
/// slot 1, 1 for on and 0 for off, every other slot 0xff ("leave unchanged"). DC on/off
/// (0x51) and DC mode (0x52) carry one byte; AC charge watts (0x45) and the screen timeout
/// (0x27) a little-endian `u16` then 0xff; the unit (0x21) and AC (0x99) timeouts a
/// little-endian `u16`; car input (0x47) a little-endian `u32`. The BMS (0x03) takes the
/// charge (0x31) and discharge (0x33) limits as one byte.
pub proof fn lemma_command_slots(c: Command)
    ensures
        ({
            let (dst, id, p) = command_encoding(c);
            match c {
                Command::AcOutput(on) => dst == 0x05 && id == 0x42 && p.len() == 7 && p[0] == (if on {
                    1u8
                } else {
                    0u8
                }) && forall|i: int| 1 <= i < 7 ==> p[i] == 0xff,
                Command::XBoost(on) => dst == 0x05 && id == 0x42 && p.len() == 7 && p[1] == (if on {
                    1u8
                } else {
                    0u8
                }) && p[0] == 0xff && forall|i: int| 2 <= i < 7 ==> p[i] == 0xff,
                Command::DcOutput(on) => dst == 0x05 && id == 0x51 && p.len() == 1 && p[0] == (if on {
                    1u8
                } else {
                    0u8
                }),
                Command::DcMode(m) => dst == 0x05 && id == 0x52 && p.len() == 1 && p[0] == m,
                Command::AcChargeWatts(w) => dst == 0x05 && id == 0x45 && p.len() == 3 && le_u16(p[0], p[1])
                    == w && p[2] == 0xff,
                Command::CarInputMilliamps(ma) => dst == 0x05 && id == 0x47 && p.len() == 4 && le_u32(
                    p[0],
                    p[1],
                    p[2],
                    p[3],
                ) == ma,
                Command::ChargeLimit(pct) => dst == 0x03 && id == 0x31 && p.len() == 1 && p[0] == pct,
                Command::DischargeLimit(pct) => dst == 0x03 && id == 0x33 && p.len() == 1 && p[0] == pct,
                Command::UnitTimeoutMinutes(m) => dst == 0x05 && id == 0x21 && p.len() == 2 && le_u16(p[0], p[1])
                    == m,
                Command::ScreenTimeoutSeconds(t) => dst == 0x05 && id == 0x27 && p.len() == 3 && le_u16(
                    p[0],
                    p[1],
                ) == t && p[2] == 0xff,
                Command::AcTimeoutMinutes(m) => dst == 0x05 && id == 0x99 && p.len() == 2 && le_u16(p[0], p[1])
                    == m,
            }
        }),
{
    match c {
        Command::AcChargeWatts(w) => lemma_u16_le_roundtrip(w),
        Command::ScreenTimeoutSeconds(t) => lemma_u16_le_roundtrip(t),
        Command::UnitTimeoutMinutes(m) => lemma_u16_le_roundtrip(m),
        Command::AcTimeoutMinutes(m) => lemma_u16_le_roundtrip(m),
        Command::CarInputMilliamps(ma) => lemma_u32_le_roundtrip(ma),
        _ => {},
    }
}

/// The user id field of the login payload: the id's bytes, cut or right-padded with
/// zeros to 64 bytes.
pub open spec fn padded_user_id(id: Seq<u8>) -> Seq<u8> {
    Seq::new(64, |i: int| if i < id.len() { id[i] } else { 0u8 })
}

/// The login payload: `01 | user_id (64 bytes) | unix_ts (u32 LE)`.
pub open spec fn auth_payload(id: Seq<u8>, unix_ts: u32) -> Seq<u8> {
    seq![1u8] + padded_user_id(id) + u32_le(unix_ts)
}

/// The V3 login packet (host -> 0x35, cmd_set 0x35, cmd_id 0xA8).
pub open spec fn auth_packet(id: Seq<u8>, unix_ts: u32) -> PacketView {
    PacketView {
        src: HOST_SRC,
        dst: 0x35,
        cmd_set: 0x35,
        cmd_id: 0xA8,
        payload: auth_payload(id, unix_ts),
        dsrc: 1,
        ddst: 1,
        version: 3,
        seq: seq![0u8, 0u8, 0u8, 0u8],
        product_id: 0,
    }
}

/// The login packet, stated by byte: a V3 packet from the host (0x21) to 0x35, cmd_set
/// 0x35, cmd_id 0xA8, whose 69-byte payload is 0x01, then the user id's bytes cut or
/// zero-padded to 64, then the timestamp as a little-endian `u32`.
pub proof fn lemma_login_payload(id: Seq<u8>, unix_ts: u32)
    ensures
        ({
            let pk = auth_packet(id, unix_ts);
            let p = pk.payload;
            &&& pk.src == 0x21 && pk.dst == 0x35 && pk.cmd_set == 0x35 && pk.cmd_id == 0xA8 && pk.version == 3
            &&& p.len() == 69
            &&& p[0] == 1
            &&& forall|i: int| 0 <= i < 64 ==> p[1 + i] == (if i < id.len() { id[i] } else { 0u8 })
            &&& le_u32(p[65], p[66], p[67], p[68]) == unix_ts
        }),
{
    lemma_u32_le_roundtrip(unix_ts);
    let p = auth_payload(id, unix_ts);
    assert forall|i: int| 0 <= i < 64 implies p[1 + i] == (if i < id.len() { id[i] } else { 0u8 }) by {
        assert(p[1 + i] == padded_user_id(id)[i]);
    }
    assert(p[65] == u32_le(unix_ts)[0] && p[66] == u32_le(unix_ts)[1] && p[67] == u32_le(unix_ts)[2]
        && p[68] == u32_le(unix_ts)[3]);
}

/// Build the plaintext auth frame that mirrors the official app's River 2 login: a V3
/// packet (host -> 0x35, cmd_set 0x35, cmd_id 0xA8) whose payload is
/// `01 | user_id (ASCII, right-padded to 64 bytes with zeros) | unix_ts (u32 LE)`.
pub fn build_plaintext_auth(user_id: &str, unix_ts: u32) -> (r: Vec<u8>)
    ensures
        r@ == encode_spec(auth_packet(user_id.spec_bytes(), unix_ts)),
{
    let bytes = user_id.as_bytes();
    let mut payload: Vec<u8> = Vec::new();
    payload.push(0x01);
    let mut i: usize = 0;
    while i < 64
        invariant
            i <= 64,
            bytes@ == user_id.spec_bytes(),
            payload@ =~= seq![1u8] + padded_user_id(bytes@).take(i as int),
        decreases 64 - i,
    {
        if i < bytes.len() {
            payload.push(bytes[i]);
        } else {
            payload.push(0);
        }
        i = i + 1;
    }
    let ts = u32_to_le(unix_ts);
    payload.extend_from_slice(ts.as_slice());
    proof {
        assert(padded_user_id(bytes@).take(64) =~= padded_user_id(bytes@));
        assert(payload@ =~= auth_payload(bytes@, unix_ts));
    }
    Packet::new(HOST_SRC, 0x35, 0x35, 0xA8, payload, 3).to_bytes()
}

/// A reading of the system clock (`std::time::SystemTime`).
#[verifier::external_type_specification]
#[verifier::external_body]
pub struct ExSystemTime(std::time::SystemTime);

/// The error of a clock reading before the epoch (`std::time::SystemTimeError`).
#[verifier::external_type_specification]
#[verifier::external_body]
pub struct ExSystemTimeError(std::time::SystemTimeError);

/// `SystemTime::now()`.
///
/// Trusted for nothing: the clock decides what comes back.
#[verifier::external_body]
fn clock_now() -> std::time::SystemTime {
    std::time::SystemTime::now()
}

/// `t.duration_since(UNIX_EPOCH)`.
///
/// Trusted for nothing: the reading decides the duration; it is an error when the reading
/// lies before the epoch.
#[verifier::external_body]
fn since_epoch(t: &std::time::SystemTime) -> Result<std::time::Duration, std::time::SystemTimeError> {
    t.duration_since(std::time::UNIX_EPOCH)
}

/// `Duration::as_secs`.
///
/// Trusted for nothing: the duration is opaque here, so nothing is claimed of its seconds.
#[verifier::external_body]
fn whole_secs(d: &std::time::Duration) -> u64 {
    d.as_secs()
}

/// The auth timestamp for a clock reading: the seconds truncated to `u32`, or 0 when the
/// clock could not be read.
pub fn unix_ts_from_secs(secs: Option<u64>) -> (ts: u32)
    ensures
        ts == (match secs {
            Some(s) => (s % 0x1_0000_0000) as u32,
            None => 0u32,
        }),
{
    match secs {
        Some(s) => (s % 0x1_0000_0000) as u32,
        None => 0,
    }
}

/// Current unix time in seconds, truncated to `u32` for the auth timestamp field.
pub fn now_unix() -> u32 {
    let t = clock_now();
    let secs = match since_epoch(&t) {
        Ok(d) => Some(whole_secs(&d)),
        Err(_) => None,
    };
    unix_ts_from_secs(secs)
}

/// Build the encrypted outer frame to write for a control command. Src/dst mirror the auth
/// packets: host (0x21) -> device (`auth_header_dst`), cmd_set/cmd_id/payload as given.
/// Decrypting the frame's payload gives the inner packet's bytes back.
pub fn build_command_frame(
    session: &Type7,
    cmd_set: u8,
    cmd_id: u8,
    payload: Vec<u8>,
    packet_version: u8,
    auth_header_dst: u8,
) -> (r: Vec<u8>)
    ensures
        ({
            let inner = encode_spec(
                PacketView {
                    src: HOST_SRC,
                    dst: auth_header_dst,
                    cmd_set,
                    cmd_id,
                    payload: payload@,
                    dsrc: 1,
                    ddst: 1,
                    version: packet_version,
                    seq: seq![0u8, 0u8, 0u8, 0u8],
                    product_id: 0,
                },
            );
            let ct = aes128_cbc_pkcs7_encrypt(session.key_spec(), session.iv_spec(), inner);
            &&& r@ == frame_spec(FRAME_TYPE_PROTOCOL, ct)
            &&& type7_decrypt_spec(session.key_spec(), session.iv_spec(), ct) == inner
            &&& ct.len() == 16 * (inner.len() / 16 + 1)
        }),
{
    let pkt = Packet::new(HOST_SRC, auth_header_dst, cmd_set, cmd_id, payload, packet_version);
    let inner = pkt.to_bytes();
    encode_frame(FRAME_TYPE_PROTOCOL, inner.as_slice(), Some(session))
}

/// A reply acknowledges a command when it carries the same cmd_set/cmd_id.
pub fn is_ack_for(pkt: &Packet, cmd_set: u8, cmd_id: u8) -> (r: bool)
    ensures
        r == (pkt.cmd_set == cmd_set && pkt.cmd_id == cmd_id),
{
    pkt.cmd_set == cmd_set && pkt.cmd_id == cmd_id
}

} // verus!

//! The order of the encrypted (encrypt_type 7) handshake as a state machine:
//! public-key exchange -> key info -> auth-status -> auth. Each step takes the frame the
//! transport received and says what to write and how long to wait next; the caller does
//! the writing and the waiting.
use vstd::prelude::*;

use crate::auth::{
    auth_digest_payload, auth_packet, auth_status_packet, check_encrypt_type, device_pubkey,
    ecdh_session, ecdh_type_size_spec, key_info_ciphertext, pubkey_hello, session_from_key_info,
    HandshakeError, SessionCfg,
};
use crate::crypto::{
    aes128_cbc_pkcs7_encrypt, md5_digest, session_key_pos, type7_decrypt_spec, SessionKeyError,
    Type7,
};
use crate::encpacket::{encode_frame, frame_spec, FRAME_TYPE_COMMAND, FRAME_TYPE_PROTOCOL};
use crate::manager::{blank, require_user_id};
use crate::packet::{encode_spec, PacketView};
use crate::secp160r1::{
    be_value, field_bytes_value, scalar_mul_spec, EcdhError, Ephemeral, PointV,
};

verus! {

/// Where the handshake stands, with what it has derived so far.
pub enum Handshake {
    /// The public-key hello is sent; the device's public key is awaited.
    AwaitPubkey(Ephemeral),
    /// The key-info request is sent; the encrypted key info is awaited. Holds the
    /// ECDH-stage cipher and IV.
    AwaitKeyInfo(Type7, [u8; 16]),
    /// The auth-status packet is sent under the session cipher; a reply may come or not.
    AwaitAuthStatus(Type7),
}

/// What the transport does next.
pub enum HandshakeStep {
    /// Write `frame` (with response), wait up to `timeout_s` seconds for the next frame and
    /// hand it to [`handshake_step`] with `next`. When `reply_required`, a missing reply
    /// ends the handshake; otherwise the step goes on without one.
    Send { next: Handshake, frame: Vec<u8>, timeout_s: u64, reply_required: bool },
    /// Probe mode: everything up to the auth-status step worked; stop without credentials.
    Probed,
    /// Write `frame` (the auth packet); `session` is the established cipher.
    Established { session: Type7, frame: Vec<u8> },
}

/// How the auth step treats the User ID.
#[derive(Clone, Copy, PartialEq, Eq)]
pub enum UserIdPolicy {
    /// Stop after the auth-status step when there is no User ID (probe mode); use a given
    /// one as it is.
    ProbeWithout,
    /// A non-blank User ID is required.
    Required,
}

/// The device key bytes in a public-key response, as [`device_pubkey`] cuts them.
pub open spec fn device_key_spec(resp: Seq<u8>) -> Seq<u8> {
    resp.subrange(
        3,
        if 3 + ecdh_type_size_spec(resp[2]) <= resp.len() {
            3 + ecdh_type_size_spec(resp[2])
        } else {
            resp.len() as int
        },
    )
}

/// The point held by the first 40 bytes of a device key.
pub open spec fn key_point(key: Seq<u8>) -> PointV {
    PointV::Affine(be_value(key.subrange(0, 20)) as int, be_value(key.subrange(20, 40)) as int)
}

/// The ECDH-stage cipher and IV for the x coordinate `x` of the shared point: with `s`
/// the 20 big-endian bytes of `x`, key = the first 16 bytes of `s`, IV = MD5(`s`).
pub open spec fn ecdh_keys(x: int, c: Type7, iv: Seq<u8>) -> bool {
    exists|s: Seq<u8>|
        #![trigger be_value(s)]
        s.len() == 20 && be_value(s) == field_bytes_value(x as nat) && c.key_spec() == s.take(16)
            && c.iv_spec() == md5_digest(s) && iv == md5_digest(s)
}

/// The auth-status (0x89) packet.
pub open spec fn auth_status_view(dst: u8, version: u8) -> PacketView {
    PacketView {
        src: 0x21,
        dst,
        cmd_set: 0x35,
        cmd_id: 0x89,
        payload: Seq::empty(),
        dsrc: 1,
        ddst: 1,
        version,
        seq: seq![0u8, 0u8, 0u8, 0u8],
        product_id: 0,
    }
}

/// The auth (0x86) packet for a User ID and serial (as bytes).
pub open spec fn auth_view(user_id: Seq<u8>, serial: Seq<u8>, dst: u8, version: u8) -> PacketView {
    PacketView {
        src: 0x21,
        dst,
        cmd_set: 0x35,
        cmd_id: 0x86,
        payload: auth_digest_payload(user_id, serial),
        dsrc: 1,
        ddst: 1,
        version,
        seq: seq![0u8, 0u8, 0u8, 0u8],
        product_id: 0,
    }
}

/// The protocol frame carrying packet `p` encrypted under `c`.
pub open spec fn protocol_frame(c: Type7, p: PacketView) -> Seq<u8> {
    frame_spec(
        FRAME_TYPE_PROTOCOL,
        aes128_cbc_pkcs7_encrypt(c.key_spec(), c.iv_spec(), encode_spec(p)),
    )
}

/// The outcome of the public-key stage for our secret scalar and the device's response.
pub open spec fn pubkey_stage(secret: nat, resp: Seq<u8>, r: Result<HandshakeStep, HandshakeError>) -> bool {
    if resp.len() < 3 {
        r == Err::<HandshakeStep, HandshakeError>(HandshakeError::ShortPubkeyResponse)
    } else if device_key_spec(resp).len() < 40 {
        r == Err::<HandshakeStep, HandshakeError>(
            HandshakeError::Ecdh(EcdhError::PeerKeyTooShort(device_key_spec(resp).len() as usize)),
        )
    } else {
        match scalar_mul_spec(secret, key_point(device_key_spec(resp))) {
            PointV::Infinity => r == Err::<HandshakeStep, HandshakeError>(
                HandshakeError::Ecdh(EcdhError::PointAtInfinity),
            ),
            PointV::Affine(x, _) => match r {
                Ok(HandshakeStep::Send { next: Handshake::AwaitKeyInfo(c, iv), frame, timeout_s, reply_required }) => {
                    &&& frame@ == frame_spec(FRAME_TYPE_COMMAND, seq![2u8])
                    &&& timeout_s == 20
                    &&& reply_required
                    &&& ecdh_keys(x, c, iv@)
                },
                _ => false,
            },
        }
    }
}

/// The outcome of the key-info stage for the ECDH-stage cipher, its IV and the response.
pub open spec fn keyinfo_stage(
    c: Type7,
    iv: Seq<u8>,
    resp: Seq<u8>,
    keydata: Seq<u8>,
    dst: u8,
    version: u8,
    r: Result<HandshakeStep, HandshakeError>,
) -> bool {
    if resp.len() == 0 || resp[0] != 2 {
        r == Err::<HandshakeStep, HandshakeError>(HandshakeError::KeyInfoType)
    } else {
        let data = type7_decrypt_spec(c.key_spec(), c.iv_spec(), resp.skip(1));
        if data.len() < 18 {
            r == Err::<HandshakeStep, HandshakeError>(HandshakeError::KeyInfoTooShort)
        } else {
            let pos = session_key_pos(data.subrange(16, 18));
            if pos + 8 > keydata.len() {
                r == Err::<HandshakeStep, HandshakeError>(
                    HandshakeError::SessionKey(SessionKeyError::KeydataOutOfRange(pos as usize)),
                )
            } else if pos + 16 > keydata.len() {
                r == Err::<HandshakeStep, HandshakeError>(
                    HandshakeError::SessionKey(
                        SessionKeyError::KeydataOutOfRange((pos + 8) as usize),
                    ),
                )
            } else {
                match r {
                    Ok(HandshakeStep::Send { next: Handshake::AwaitAuthStatus(s), frame, timeout_s, reply_required }) => {
                        &&& s.key_spec() == md5_digest(keydata.subrange(pos, pos + 16) + data.take(16))
                        &&& s.iv_spec() == iv
                        &&& frame@ == protocol_frame(s, auth_status_view(dst, version))
                        &&& timeout_s == 5
                        &&& !reply_required
                    },
                    _ => false,
                }
            }
        }
    }
}

/// Whether the auth step has no User ID to use under `policy`.
pub open spec fn user_id_missing(user_id: Option<String>, policy: UserIdPolicy) -> bool {
    match user_id {
        None => true,
        Some(u) => policy == UserIdPolicy::Required && blank(u@),
    }
}

/// The outcome of the auth step for the session cipher.
pub open spec fn auth_stage(
    s: Type7,
    user_id: Option<String>,
    serial: Seq<char>,
    dst: u8,
    version: u8,
    policy: UserIdPolicy,
    r: Result<HandshakeStep, HandshakeError>,
) -> bool {
    if user_id_missing(user_id, policy) {
        if policy == UserIdPolicy::ProbeWithout {
            r == Ok::<HandshakeStep, HandshakeError>(HandshakeStep::Probed)
        } else {
            r == Err::<HandshakeStep, HandshakeError>(HandshakeError::MissingUserId)
        }
    } else {
        match r {
            Ok(HandshakeStep::Established { session, frame }) => {
                &&& session == s
                &&& frame@ == protocol_frame(
                    s,
                    auth_view(
                        vstd::utf8::encode_utf8(user_id->0@),
                        vstd::utf8::encode_utf8(serial),
                        dst,
                        version,
                    ),
                )
            },
            _ => false,
        }
    }
}

/// Start the handshake with a fresh key pair: only an encrypt_type 7 device speaks it;
/// the first write is the public-key hello, whose reply is required within 20 s.
pub fn handshake_start(encrypt_type: u8, eph: Ephemeral) -> (r: Result<HandshakeStep, HandshakeError>)
    ensures
        encrypt_type != 7 ==> r == Err::<HandshakeStep, HandshakeError>(
            HandshakeError::WrongEncryptType(encrypt_type),
        ),
        encrypt_type == 7 ==> match r {
            Ok(HandshakeStep::Send { next: Handshake::AwaitPubkey(e), frame, timeout_s, reply_required }) => {
                &&& e == eph
                &&& frame@ == frame_spec(FRAME_TYPE_COMMAND, seq![1u8, 0u8] + eph.public_key_view())
                &&& timeout_s == 20
                &&& reply_required
            },
            _ => false,
        },
{
    match check_encrypt_type(encrypt_type) {
        Ok(()) => {},
        Err(e) => return Err(e),
    }
    let hello = pubkey_hello(eph.public_key_bytes());
    let frame = encode_frame(FRAME_TYPE_COMMAND, hello.as_slice(), None);
    Ok(HandshakeStep::Send { next: Handshake::AwaitPubkey(eph), frame, timeout_s: 20, reply_required: true })
}

/// One step of the handshake: given where it stands and the frame that came back (none
/// when a wait that needs no reply ran out), what to write next, or how it ended.
pub fn handshake_step(
    state: Handshake,
    reply: Option<&[u8]>,
    cfg: &SessionCfg,
    keydata: &[u8],
    policy: UserIdPolicy,
) -> (r: Result<HandshakeStep, HandshakeError>)
    requires
        state is AwaitPubkey || state is AwaitKeyInfo ==> reply is Some,
    ensures
        match state {
            Handshake::AwaitPubkey(eph) => pubkey_stage(eph.secret(), reply->0@, r),
            Handshake::AwaitKeyInfo(c, iv) => keyinfo_stage(
                c,
                iv@,
                reply->0@,
                keydata@,
                cfg.auth_header_dst,
                cfg.packet_version,
                r,
            ),
            Handshake::AwaitAuthStatus(s) => auth_stage(
                s,
                cfg.user_id,
                cfg.serial@,
                cfg.auth_header_dst,
                cfg.packet_version,
                policy,
                r,
            ),
        },
{
    match state {
        Handshake::AwaitPubkey(eph) => {
            let resp = reply.unwrap();
            let dev = match device_pubkey(resp) {
                Ok(d) => d,
                Err(e) => return Err(e),
            };
            let shared = match eph.shared_secret(dev.as_slice()) {
                Ok(s) => s,
                Err(e) => return Err(HandshakeError::Ecdh(e)),
            };
            let (c, iv) = ecdh_session(&shared);
            let request: Vec<u8> = vec![0x02];
            let frame = encode_frame(FRAME_TYPE_COMMAND, request.as_slice(), None);
            proof {
                assert(request@ =~= seq![2u8]);
                assert(dev@.subrange(0, 20) == device_key_spec(resp@).subrange(0, 20));
                assert(shared@.len() == 20);
                assert(be_value(shared@) == be_value(shared@));
            }
            Ok(HandshakeStep::Send { next: Handshake::AwaitKeyInfo(c, iv), frame, timeout_s: 20, reply_required: true })
        },
        Handshake::AwaitKeyInfo(c, iv) => {
            let resp = reply.unwrap();
            let ct = match key_info_ciphertext(resp) {
                Ok(ct) => ct,
                Err(e) => return Err(e),
            };
            let data = c.decrypt(ct.as_slice());
            let session = match session_from_key_info(keydata, data.as_slice(), iv) {
                Ok(s) => s,
                Err(e) => return Err(e),
            };
            let p = auth_status_packet(cfg.auth_header_dst, cfg.packet_version);
            let inner = p.to_bytes();
            let frame = encode_frame(FRAME_TYPE_PROTOCOL, inner.as_slice(), Some(&session));
            Ok(HandshakeStep::Send { next: Handshake::AwaitAuthStatus(session), frame, timeout_s: 5, reply_required: false })
        },
        Handshake::AwaitAuthStatus(session) => {
            let user_id: &String = match policy {
                UserIdPolicy::ProbeWithout => match &cfg.user_id {
                    Some(u) => u,
                    None => return Ok(HandshakeStep::Probed),
                },
                UserIdPolicy::Required => match require_user_id(&cfg.user_id) {
                    Ok(u) => u,
                    Err(e) => return Err(e),
                },
            };
            let p = auth_packet(user_id.as_str(), cfg.serial.as_str(), cfg.auth_header_dst, cfg.packet_version);
            let inner = p.to_bytes();
            let frame = encode_frame(FRAME_TYPE_PROTOCOL, inner.as_slice(), Some(&session));
            Ok(HandshakeStep::Established { session, frame })
        },
    }
}

} // verus!

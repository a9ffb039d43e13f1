//! The pure steps of the encrypted (encrypt_type 7) handshake:
//! ECDH pubkey exchange -> key-info/session-key -> auth-status -> auth -> stream.
//! The transport work (writes, waiting for notifications) is done by the caller.
use vstd::prelude::*;
use vstd::string::StringSliceAdditionalSpecFns;

use crate::crypto::{gen_session_key, md5, md5_digest, session_key_pos, SessionKeyError, Type7};
use crate::packet::{Packet, PacketView};
use crate::secp160r1::EcdhError;

verus! {

/// Session configuration.
pub struct SessionCfg {
    /// None = probe mode: validate the handshake up to session-key + auth-status, then
    /// stop (no account credentials needed). Some = authenticate and stream.
    pub user_id: Option<String>,
    pub serial: String,
    pub packet_version: u8,
    pub auth_header_dst: u8,
}

/// Errors of the handshake steps.
#[derive(Debug, Clone, Copy, PartialEq, Eq)]
pub enum HandshakeError {
    /// The device advertises another encrypt type than 7.
    WrongEncryptType(u8),
    /// The public-key response is shorter than 3 bytes.
    ShortPubkeyResponse,
    /// The key-info response does not start with 0x02.
    KeyInfoType,
    /// The decrypted key-info payload is shorter than 18 bytes.
    KeyInfoTooShort,
    /// Session-key derivation failed.
    SessionKey(SessionKeyError),
    /// The ECDH shared secret could not be computed from the device key.
    Ecdh(EcdhError),
    /// No User ID to authenticate with.
    MissingUserId,
}

/// Only encrypt_type 7 devices speak the encrypted handshake.
pub fn check_encrypt_type(encrypt_type: u8) -> (r: Result<(), HandshakeError>)
    ensures
        encrypt_type == 7 <==> r is Ok,
        encrypt_type != 7 ==> r == Err::<(), HandshakeError>(HandshakeError::WrongEncryptType(encrypt_type)),
{
    if encrypt_type != 7 {
        Err(HandshakeError::WrongEncryptType(encrypt_type))
    } else {
        Ok(())
    }
}

/// The size of a device public key for a curve number.
pub open spec fn ecdh_type_size_spec(curve_num: u8) -> usize {
    if curve_num == 1 {
        52
    } else if curve_num == 2 {
        56
    } else if curve_num == 3 || curve_num == 4 {
        64
    } else {
        40
    }
}

/// The size of a device public key for a curve number.
pub fn ecdh_type_size(curve_num: u8) -> (r: usize)
    ensures
        r == ecdh_type_size_spec(curve_num),
{
    match curve_num {
        1 => 52,
        2 => 56,
        3 | 4 => 64,
        _ => 40,
    }
}

/// The public-key hello payload: `01 00 | public key`.
pub fn pubkey_hello(public_key: &[u8]) -> (r: Vec<u8>)
    ensures
        r@ == seq![1u8, 0u8] + public_key@,
{
    let mut hello: Vec<u8> = Vec::new();
    hello.push(0x01);
    hello.push(0x00);
    hello.extend_from_slice(public_key);
    proof {
        assert(hello@ =~= seq![1u8, 0u8] + public_key@);
    }
    hello
}

/// The device public key in a public-key response: after the 3-byte header, as many
/// bytes as its curve uses, cut at the end of the response.
pub fn device_pubkey(resp: &[u8]) -> (r: Result<Vec<u8>, HandshakeError>)
    ensures
        resp@.len() < 3 ==> r == Err::<Vec<u8>, HandshakeError>(HandshakeError::ShortPubkeyResponse),
        resp@.len() >= 3 ==> r is Ok && r->Ok_0@ == resp@.subrange(
            3,
            if 3 + ecdh_type_size_spec(resp@[2]) <= resp@.len() {
                3 + ecdh_type_size_spec(resp@[2])
            } else {
                resp@.len() as int
            },
        ),
{
    if resp.len() < 3 {
        return Err(HandshakeError::ShortPubkeyResponse);
    }
    let size = ecdh_type_size(resp[2]);
    let end = if 3 + size <= resp.len() {
        3 + size
    } else {
        resp.len()
    };
    Ok(vstd::slice::slice_to_vec(&resp[3..end]))
}

/// The ECDH-stage cipher: key = the first 16 bytes of the shared secret, IV = its MD5.
pub fn ecdh_session(shared: &[u8; 20]) -> (r: (Type7, [u8; 16]))
    ensures
        r.0.key_spec() == shared@.take(16),
        r.0.iv_spec() == md5_digest(shared@),
        r.1@ == md5_digest(shared@),
{
    let iv = md5(shared.as_slice());
    let key: [u8; 16] = [
        shared[0],
        shared[1],
        shared[2],
        shared[3],
        shared[4],
        shared[5],
        shared[6],
        shared[7],
        shared[8],
        shared[9],
        shared[10],
        shared[11],
        shared[12],
        shared[13],
        shared[14],
        shared[15],
    ];
    proof {
        assert(key@ =~= shared@.take(16));
    }
    (Type7::new(key, iv), iv)
}

/// The encrypted part of a key-info response, which must start with 0x02.
pub fn key_info_ciphertext(enc_resp: &[u8]) -> (r: Result<Vec<u8>, HandshakeError>)
    ensures
        (enc_resp@.len() == 0 || enc_resp@[0] != 2) ==> r == Err::<Vec<u8>, HandshakeError>(HandshakeError::KeyInfoType),
        (enc_resp@.len() > 0 && enc_resp@[0] == 2) ==> r is Ok && r->Ok_0@ == enc_resp@.skip(1),
{
    if enc_resp.len() == 0 || enc_resp[0] != 0x02 {
        return Err(HandshakeError::KeyInfoType);
    }
    let r = vstd::slice::slice_to_vec(&enc_resp[1..enc_resp.len()]);
    proof {
        assert(r@ =~= enc_resp@.skip(1));
    }
    Ok(r)
}

/// The session cipher from the decrypted key-info payload (`srand` = bytes 0..16,
/// `seed` = bytes 16..18); the IV is reused from the ECDH stage.
pub fn session_from_key_info(keydata: &[u8], data: &[u8], iv: [u8; 16]) -> (r: Result<Type7, HandshakeError>)
    ensures
        data@.len() < 18 ==> r == Err::<Type7, HandshakeError>(HandshakeError::KeyInfoTooShort),
        data@.len() >= 18 && session_key_pos(data@.subrange(16, 18)) + 8 > keydata@.len() ==> r
            == Err::<Type7, HandshakeError>(
            HandshakeError::SessionKey(
                SessionKeyError::KeydataOutOfRange(session_key_pos(data@.subrange(16, 18)) as usize),
            ),
        ),
        data@.len() >= 18 && session_key_pos(data@.subrange(16, 18)) + 8 <= keydata@.len()
            && session_key_pos(data@.subrange(16, 18)) + 16 > keydata@.len() ==> r == Err::<
            Type7,
            HandshakeError,
        >(
            HandshakeError::SessionKey(
                SessionKeyError::KeydataOutOfRange(
                    (session_key_pos(data@.subrange(16, 18)) + 8) as usize,
                ),
            ),
        ),
        data@.len() >= 18 && session_key_pos(data@.subrange(16, 18)) + 16 <= keydata@.len() ==> r is Ok
            && r->Ok_0.iv_spec() == iv@ && r->Ok_0.key_spec() == md5_digest(
            keydata@.subrange(
                session_key_pos(data@.subrange(16, 18)),
                session_key_pos(data@.subrange(16, 18)) + 16,
            ) + data@.take(16),
        ),
{
    if data.len() < 18 {
        return Err(HandshakeError::KeyInfoTooShort);
    }
    let srand = &data[0..16];
    let seed: [u8; 2] = [data[16], data[17]];
    proof {
        assert(seed@ =~= data@.subrange(16, 18));
        assert(srand@.take(16) =~= data@.take(16));
    }
    match gen_session_key(keydata, seed, srand) {
        Ok(key) => Ok(Type7::new(key, iv)),
        Err(e) => Err(HandshakeError::SessionKey(e)),
    }
}

/// The auth-status (0x89) packet.
pub fn auth_status_packet(auth_header_dst: u8, packet_version: u8) -> (p: Packet)
    ensures
        p@ == (PacketView {
            src: 0x21,
            dst: auth_header_dst,
            cmd_set: 0x35,
            cmd_id: 0x89,
            payload: Seq::empty(),
            dsrc: 1,
            ddst: 1,
            version: packet_version,
            seq: seq![0u8, 0u8, 0u8, 0u8],
            product_id: 0,
        }),
{
    Packet::new(0x21, auth_header_dst, 0x35, 0x89, Vec::new(), packet_version)
}

/// The upper-case hexadecimal digit of a nibble, as an ASCII byte.
pub open spec fn hex_digit(n: u8) -> u8 {
    if n < 10 {
        (0x30 + n) as u8
    } else {
        (0x41 + n - 10) as u8
    }
}

/// Upper-case hexadecimal text of bytes, two ASCII digits per byte.
pub open spec fn hex_upper(s: Seq<u8>) -> Seq<u8>
    decreases s.len(),
{
    if s.len() == 0 {
        Seq::empty()
    } else {
        hex_upper(s.drop_last()) + seq![hex_digit(s.last() >> 4u8), hex_digit(s.last() & 0x0f)]
    }
}

fn hex_digit_exec(n: u8) -> (d: u8)
    requires
        n < 16,
    ensures
        d == hex_digit(n),
{
    if n < 10 {
        0x30 + n
    } else {
        0x41 + n - 10
    }
}

/// Upper-case hexadecimal text of bytes.
pub fn hex_upper_bytes(s: &[u8]) -> (r: Vec<u8>)
    ensures
        r@ == hex_upper(s@),
{
    let mut r: Vec<u8> = Vec::new();
    let mut i: usize = 0;
    while i < s.len()
        invariant
            i <= s.len(),
            r@ == hex_upper(s@.take(i as int)),
        decreases s.len() - i,
    {
        let b = s[i];
        assert((b >> 4u8) < 16 && (b & 0x0f) < 16) by (bit_vector);
        r.push(hex_digit_exec(b >> 4));
        r.push(hex_digit_exec(b & 0x0f));
        proof {
            assert(s@.take(i + 1).drop_last() =~= s@.take(i as int));
            assert(r@ =~= hex_upper(s@.take(i + 1)));
        }
        i = i + 1;
    }
    proof {
        assert(s@.take(s@.len() as int) =~= s@);
    }
    r
}

/// The auth (0x86) payload: MD5(user id + serial) as upper-case hex text.
pub open spec fn auth_digest_payload(user_id: Seq<u8>, serial: Seq<u8>) -> Seq<u8> {
    hex_upper(md5_digest(user_id + serial))
}

/// The auth (0x86) packet carrying MD5(user id + serial) as upper-case hex.
pub fn auth_packet(user_id: &str, serial: &str, auth_header_dst: u8, packet_version: u8) -> (p: Packet)
    ensures
        p@ == (PacketView {
            src: 0x21,
            dst: auth_header_dst,
            cmd_set: 0x35,
            cmd_id: 0x86,
            payload: auth_digest_payload(user_id.spec_bytes(), serial.spec_bytes()),
            dsrc: 1,
            ddst: 1,
            version: packet_version,
            seq: seq![0u8, 0u8, 0u8, 0u8],
            product_id: 0,
        }),
{
    let mut text: Vec<u8> = Vec::new();
    text.extend_from_slice(user_id.as_bytes());
    text.extend_from_slice(serial.as_bytes());
    proof {
        assert(text@ =~= user_id.spec_bytes() + serial.spec_bytes());
    }
    let digest = md5(text.as_slice());
    let payload = hex_upper_bytes(digest.as_slice());
    Packet::new(0x21, auth_header_dst, 0x35, 0x86, payload, packet_version)
}

/// Build the reply packet (swap src/dst) that nudges the device to keep streaming.
pub fn reply_packet(pkt: &Packet) -> (r: Packet)
    ensures
        r@ == (PacketView { src: pkt.dst, dst: pkt.src, dsrc: 1, ddst: 1, ..pkt@ }),
{
    Packet {
        src: pkt.dst,
        dst: pkt.src,
        cmd_set: pkt.cmd_set,
        cmd_id: pkt.cmd_id,
        payload: vstd::slice::slice_to_vec(pkt.payload.as_slice()),
        dsrc: 1,
        ddst: 1,
        version: pkt.version,
        seq: pkt.seq,
        product_id: pkt.product_id,
    }
}

} // verus!

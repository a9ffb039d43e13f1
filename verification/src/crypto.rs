//! MD5, AES-128-CBC (with EcoFlow's "Type7" decrypt quirk) and session-key derivation.
use vstd::prelude::*;

use crate::keydata::get8;

use cbc::cipher::block_padding::{NoPadding, Pkcs7};
use cbc::cipher::{BlockDecryptMut, BlockEncryptMut, KeyIvInit};
use md5::Digest;

verus! {

/// The MD5 digest of `data` (16 bytes).
pub uninterp spec fn md5_digest(data: Seq<u8>) -> Seq<u8>;

/// AES-128-CBC encryption of `plaintext` after PKCS#7 padding, as the `cbc` crate
/// computes it.
pub uninterp spec fn aes128_cbc_pkcs7_encrypt(key: Seq<u8>, iv: Seq<u8>, plaintext: Seq<u8>) -> Seq<u8>;

/// AES-128-CBC decryption of a whole number of blocks, without unpadding, as the `cbc`
/// crate computes it.
pub uninterp spec fn aes128_cbc_decrypt_blocks(key: Seq<u8>, iv: Seq<u8>, ciphertext: Seq<u8>) -> Seq<u8>;

/// PKCS#7 padding to a 16-byte boundary: `n` bytes of value `n`, `1 <= n <= 16`.
pub open spec fn pkcs7_pad(s: Seq<u8>) -> Seq<u8> {
    let n = 16 - s.len() % 16;
    s + Seq::new(n as nat, |i: int| n as u8)
}

/// MD5 digest (`md5` of the `md-5` crate: `Md5::new`, `update`, `finalize`).
///
/// Trusted: the result is the MD5 digest of `data`; nothing more is claimed of it.
#[verifier::external_body]
pub fn md5(data: &[u8]) -> (digest: [u8; 16])
    ensures
        digest@ == md5_digest(data@),
{
    let mut h = ::md5::Md5::new();
    h.update(data);
    h.finalize().into()
}

/// `cbc::Encryptor<Aes128>::new(key, iv).encrypt_padded_vec_mut::<Pkcs7>(plaintext)`.
///
/// Trusted: the result is the named CBC/PKCS#7 encryption; its length is the padded
/// length (the crate allocates `16 * (len / 16 + 1)` bytes and pads by 1..=16 bytes), and
/// decrypting its blocks with the same key and IV gives the padded plaintext back.
#[verifier::external_body]
fn cbc_encrypt_pkcs7(key: &[u8; 16], iv: &[u8; 16], plaintext: &[u8]) -> (ct: Vec<u8>)
    ensures
        ct@ == aes128_cbc_pkcs7_encrypt(key@, iv@, plaintext@),
        ct@.len() == 16 * (plaintext@.len() / 16 + 1),
        aes128_cbc_decrypt_blocks(key@, iv@, ct@) == pkcs7_pad(plaintext@),
{
    let enc = cbc::Encryptor::<aes::Aes128>::new(key.into(), iv.into());
    enc.encrypt_padded_vec_mut::<Pkcs7>(plaintext)
}

/// `cbc::Decryptor<Aes128>::new(key, iv).decrypt_padded_mut::<NoPadding>(buf)` on a copy of
/// `ciphertext`.
///
/// Trusted: the crate refuses (returns `None` here) exactly when the length is not a
/// multiple of the block size; otherwise the result is the named block decryption, of the
/// same length.
#[verifier::external_body]
fn cbc_decrypt_no_padding(key: &[u8; 16], iv: &[u8; 16], ciphertext: &[u8]) -> (pt: Option<Vec<u8>>)
    ensures
        ciphertext@.len() % 16 != 0 ==> pt is None,
        ciphertext@.len() % 16 == 0 ==> pt is Some && pt->0@ == aes128_cbc_decrypt_blocks(key@, iv@, ciphertext@),
{
    let dec = cbc::Decryptor::<aes::Aes128>::new(key.into(), iv.into());
    let mut buf = ciphertext.to_vec();
    match dec.decrypt_padded_mut::<NoPadding>(&mut buf) {
        Ok(pt) => Some(pt.to_vec()),
        Err(_) => None,
    }
}

/// Best-effort PKCS#7 strip: the unpadded bytes when the padding is valid, otherwise the
/// input unchanged.
pub open spec fn strip_pkcs7_spec(data: Seq<u8>) -> Seq<u8> {
    if data.len() == 0 {
        data
    } else {
        let pad = data.last() as int;
        if pad == 0 || pad > 16 || pad > data.len() {
            data
        } else if forall|i: int| data.len() - pad <= i < data.len() ==> data[i] as int == pad {
            data.take(data.len() - pad)
        } else {
            data
        }
    }
}

/// What [`Type7::decrypt`] returns: only whole blocks are decrypted (trailing partial-block
/// bytes are dropped), and a PKCS#7 strip is attempted; input shorter than a block is
/// returned unchanged.
pub open spec fn type7_decrypt_spec(key: Seq<u8>, iv: Seq<u8>, ciphertext: Seq<u8>) -> Seq<u8> {
    let aligned = ciphertext.len() - ciphertext.len() % 16;
    if aligned == 0 {
        ciphertext
    } else {
        strip_pkcs7_spec(aes128_cbc_decrypt_blocks(key, iv, ciphertext.take(aligned)))
    }
}

/// Decryption removes padding only where it is valid PKCS#7. With `raw` the decrypted
/// whole blocks: the result is `raw` itself or a prefix of it, and what is cut off is
/// `k` bytes each equal to `k`, with `1 <= k <= 16`; when the last byte `k` of `raw` is
/// in `1..=16` and all of the last `k` bytes equal `k`, exactly those are cut; when some
/// byte among them differs, `raw` is returned unchanged. Input shorter than a block is
/// returned unchanged.
pub proof fn lemma_decrypt_strips_only_valid_padding(key: Seq<u8>, iv: Seq<u8>, ct: Seq<u8>)
    ensures
        ({
            let aligned = ct.len() - ct.len() % 16;
            let raw = aes128_cbc_decrypt_blocks(key, iv, ct.take(aligned));
            let r = type7_decrypt_spec(key, iv, ct);
            let k = raw.len() - r.len();
            &&& aligned == 0 ==> r == ct
            &&& aligned > 0 ==> {
                &&& r.len() <= raw.len()
                &&& r == raw.take(r.len() as int)
                &&& r.len() < raw.len() ==> 1 <= k <= 16 && forall|i: int|
                    r.len() <= i < raw.len() ==> raw[i] as int == k
                &&& (raw.len() > 0 && 1 <= raw.last() <= 16 && raw.last() <= raw.len() && forall|i: int|
                    raw.len() - raw.last() <= i < raw.len() ==> raw[i] == raw.last()) ==> r.len()
                    == raw.len() - raw.last()
                &&& (raw.len() > 0 && exists|i: int|
                    raw.len() - raw.last() <= i < raw.len() && 0 <= i && raw[i] != raw.last()) ==> r == raw
            }
        }),
{
    let aligned = ct.len() - ct.len() % 16;
    if aligned > 0 {
        let raw = aes128_cbc_decrypt_blocks(key, iv, ct.take(aligned));
        let r = type7_decrypt_spec(key, iv, ct);
        if raw.len() > 0 {
            let pad = raw.last() as int;
            if !(pad == 0 || pad > 16 || pad > raw.len()) && forall|i: int|
                raw.len() - pad <= i < raw.len() ==> raw[i] as int == pad {
                assert(r == raw.take(raw.len() - pad));
                assert forall|i: int| r.len() <= i < raw.len() implies raw[i] as int == raw.len() - r.len() by {
                    assert(raw.len() - pad <= i);
                }
            } else {
                assert(r == raw);
                assert(raw.take(raw.len() as int) =~= raw);
            }
        } else {
            assert(raw.take(0) =~= raw);
        }
    }
}

/// Session-level AES-128-CBC used once the session key is set (encrypt_type 7).
#[derive(Clone)]
pub struct Type7 {
    key: [u8; 16],
    iv: [u8; 16],
}

impl Type7 {
    /// The key.
    pub closed spec fn key_spec(&self) -> Seq<u8> {
        self.key@
    }

    /// The IV.
    pub closed spec fn iv_spec(&self) -> Seq<u8> {
        self.iv@
    }

    /// A cipher with this key and IV.
    pub fn new(key: [u8; 16], iv: [u8; 16]) -> (r: Type7)
        ensures
            r.key_spec() == key@,
            r.iv_spec() == iv@,
    {
        Type7 { key, iv }
    }

    /// PKCS7-pad then AES-CBC encrypt. Decrypting the result gives the plaintext back.
    pub fn encrypt(&self, plaintext: &[u8]) -> (ct: Vec<u8>)
        ensures
            ct@ == aes128_cbc_pkcs7_encrypt(self.key_spec(), self.iv_spec(), plaintext@),
            ct@.len() == 16 * (plaintext@.len() / 16 + 1),
            type7_decrypt_spec(self.key_spec(), self.iv_spec(), ct@) == plaintext@,
    {
        let ct = cbc_encrypt_pkcs7(&self.key, &self.iv, plaintext);
        proof {
            let n = plaintext@.len();
            let padded = pkcs7_pad(plaintext@);
            let pad = 16 - n % 16;
            assert(ct@.len() % 16 == 0) by (nonlinear_arith)
                requires ct@.len() == 16 * (n / 16 + 1);
            assert(ct@.take(ct@.len() as int) =~= ct@);
            assert(padded.len() == n + pad);
            assert(padded.last() == pad as u8);
            assert(padded.take(padded.len() - pad) =~= plaintext@);
        }
        ct
    }

    /// AES-CBC decrypt, mirroring the firmware quirk: only whole blocks are decrypted,
    /// trailing partial-block bytes are dropped, and PKCS7 unpad is attempted but a bad
    /// pad falls back to the raw decrypted bytes.
    pub fn decrypt(&self, ciphertext: &[u8]) -> (pt: Vec<u8>)
        ensures
            pt@ == type7_decrypt_spec(self.key_spec(), self.iv_spec(), ciphertext@),
    {
        let aligned = ciphertext.len() - (ciphertext.len() % 16);
        if aligned == 0 {
            return vstd::slice::slice_to_vec(ciphertext);
        }
        let blocks = &ciphertext[0..aligned];
        proof {
            assert(blocks@ =~= ciphertext@.take(aligned as int));
        }
        let raw = match cbc_decrypt_no_padding(&self.key, &self.iv, blocks) {
            Some(pt) => pt,
            None => return vstd::slice::slice_to_vec(blocks),
        };
        strip_pkcs7(raw.as_slice())
    }
}

/// Best-effort PKCS7 strip: returns the unpadded bytes when the padding is valid,
/// otherwise the input unchanged.
fn strip_pkcs7(data: &[u8]) -> (r: Vec<u8>)
    ensures
        r@ == strip_pkcs7_spec(data@),
{
    if data.len() == 0 {
        return vstd::slice::slice_to_vec(data);
    }
    let pad = data[data.len() - 1] as usize;
    if pad == 0 || pad > 16 || pad > data.len() {
        return vstd::slice::slice_to_vec(data);
    }
    let n = data.len();
    let mut i = n - pad;
    while i < n
        invariant
            n == data.len(),
            1 <= pad <= n,
            pad == data@.last() as int,
            n - pad <= i <= n,
            forall|j: int| n - pad <= j < i ==> data@[j] as int == pad,
        decreases n - i,
    {
        if data[i] as usize != pad {
            return vstd::slice::slice_to_vec(data);
        }
        i = i + 1;
    }
    let r = vstd::slice::slice_to_vec(&data[0..n - pad]);
    proof {
        assert(r@ =~= data@.take(n - pad));
    }
    r
}

/// Errors of session-key derivation.
#[derive(Debug, Clone, Copy, PartialEq, Eq)]
pub enum SessionKeyError {
    /// The random part of the key-info response is shorter than 16 bytes (its length).
    SrandTooShort(usize),
    /// The key table has no 8 bytes at this index.
    KeydataOutOfRange(usize),
}

/// The key-table index selected by a seed.
pub open spec fn session_key_pos(seed: Seq<u8>) -> int {
    seed[0] as int * 0x10 + ((seed[1] as int - 1) % 256) * 0x100
}

/// Derive the BLE session key from the key-info response:
/// `md5(keydata[pos .. pos + 16] || srand[0..16])` with
/// `pos = seed[0] * 0x10 + ((seed[1] - 1) & 0xff) * 0x100`.
pub fn gen_session_key(keydata: &[u8], seed: [u8; 2], srand: &[u8]) -> (r: Result<[u8; 16], SessionKeyError>)
    ensures
        srand@.len() < 16 ==> r == Err::<[u8; 16], SessionKeyError>(SessionKeyError::SrandTooShort(srand@.len() as usize)),
        srand@.len() >= 16 && session_key_pos(seed@) + 8 > keydata@.len() ==>
            r == Err::<[u8; 16], SessionKeyError>(SessionKeyError::KeydataOutOfRange(session_key_pos(seed@) as usize)),
        srand@.len() >= 16 && session_key_pos(seed@) + 8 <= keydata@.len() && session_key_pos(seed@) + 16 > keydata@.len() ==>
            r == Err::<[u8; 16], SessionKeyError>(SessionKeyError::KeydataOutOfRange((session_key_pos(seed@) + 8) as usize)),
        srand@.len() >= 16 && session_key_pos(seed@) + 16 <= keydata@.len() ==>
            r is Ok && r->Ok_0@ == md5_digest(
                keydata@.subrange(session_key_pos(seed@), session_key_pos(seed@) + 16) + srand@.take(16),
            ),
{
    if srand.len() < 16 {
        return Err(SessionKeyError::SrandTooShort(srand.len()));
    }
    let pos = (seed[0] as usize) * 0x10 + (seed[1].wrapping_sub(1) as usize) * 0x100;
    proof {
        assert(seed[1].wrapping_sub(1) as int == (seed@[1] as int - 1) % 256);
        assert(pos == session_key_pos(seed@));
    }
    let k0 = match get8(keydata, pos) {
        Some(k) => k,
        None => return Err(SessionKeyError::KeydataOutOfRange(pos)),
    };
    let k1 = match get8(keydata, pos + 8) {
        Some(k) => k,
        None => return Err(SessionKeyError::KeydataOutOfRange(pos + 8)),
    };
    let mut data: Vec<u8> = Vec::new();
    let mut i: usize = 0;
    while i < 8
        invariant
            i <= 8,
            data@ =~= k0@.take(i as int),
        decreases 8 - i,
    {
        data.push(k0[i]);
        i = i + 1;
    }
    let mut i: usize = 0;
    while i < 8
        invariant
            i <= 8,
            data@ =~= k0@ + k1@.take(i as int),
        decreases 8 - i,
    {
        data.push(k1[i]);
        i = i + 1;
    }
    let mut i: usize = 0;
    while i < 16
        invariant
            i <= 16,
            16 <= srand.len(),
            data@ =~= k0@ + k1@ + srand@.take(i as int),
        decreases 16 - i,
    {
        data.push(srand[i]);
        i = i + 1;
    }
    proof {
        assert(k0@ + k1@ =~= keydata@.subrange(pos as int, pos + 16));
    }
    Ok(md5(data.as_slice()))
}

} // verus!

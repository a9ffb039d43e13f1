//! Outer BLE frame ("EncPacket", 0x5A5A prefix) encode + reassembly.
//!
//! Frame layout:
//! ```text
//!   5A 5A | frame_type<<4 | 01 | (len(payload)+2) as u16 LE | payload | crc16 LE
//! ```
//! `payload` is AES-CBC encrypted for protocol frames (encrypt_type 7) and plaintext for
//! the handshake command/response frames.
use vstd::prelude::*;

use crate::bytes::{le_u16, lemma_u16_le_roundtrip, u16_from_le, u16_le, u16_to_le};
use crate::crc::{crc16, crc16_spec};
use crate::crypto::{aes128_cbc_pkcs7_encrypt, type7_decrypt_spec, Type7};
use crate::packet::frames_view;

verus! {

/// Frame type of the plaintext handshake commands.
pub const FRAME_TYPE_COMMAND: u8 = 0x00;
/// Frame type of (encrypted) protocol frames.
pub const FRAME_TYPE_PROTOCOL: u8 = 0x01;

/// First byte of the two-byte frame prefix (both bytes are 0x5A).
pub const PREFIX_BYTE: u8 = 0x5a;

/// Largest payload length field the reassembler accepts.
pub const MAX_PAYLOAD_FIELD: usize = 10000;

/// The six header bytes of a frame carrying `payload`.
pub open spec fn frame_header(frame_type: u8, payload: Seq<u8>) -> Seq<u8> {
    let len = u16_le(((payload.len() + 2) % 0x10000) as u16);
    seq![PREFIX_BYTE, PREFIX_BYTE, (frame_type << 4u8) as u8, 1u8, len[0], len[1]]
}

/// The encoded frame carrying `payload` (already encrypted where it is).
pub open spec fn frame_spec(frame_type: u8, payload: Seq<u8>) -> Seq<u8> {
    let b = frame_header(frame_type, payload) + payload;
    b + u16_le(crc16_spec(b))
}

/// The payload that [`encode_frame`] puts in the frame.
pub open spec fn frame_payload(inner: Seq<u8>, cipher: Option<&Type7>) -> Seq<u8> {
    match cipher {
        Some(c) => aes128_cbc_pkcs7_encrypt(c.key_spec(), c.iv_spec(), inner),
        None => inner,
    }
}

/// Encode one EncPacket frame. When `cipher` is given, the payload is AES-CBC encrypted,
/// and decrypting it with the same cipher gives `inner` back.
pub fn encode_frame(frame_type: u8, inner: &[u8], cipher: Option<&Type7>) -> (r: Vec<u8>)
    ensures
        r@ == frame_spec(frame_type, frame_payload(inner@, cipher)),
        cipher matches Some(c) ==> type7_decrypt_spec(c.key_spec(), c.iv_spec(), frame_payload(inner@, cipher)) == inner@,
        cipher matches Some(c) ==> frame_payload(inner@, cipher).len() == 16 * (inner@.len() / 16 + 1),
{
    let payload = match cipher {
        Some(c) => c.encrypt(inner),
        None => vstd::slice::slice_to_vec(inner),
    };
    let n = payload.len();
    let field = ((n % 0x10000 + 2) % 0x10000) as u16;
    proof {
        assert((n % 0x10000 + 2) % 0x10000 == (n + 2) % 0x10000) by (nonlinear_arith);
    }
    let mut data: Vec<u8> = Vec::new();
    data.push(PREFIX_BYTE);
    data.push(PREFIX_BYTE);
    data.push(frame_type << 4);
    data.push(0x01);
    let (l0, l1) = u16_to_le(field);
    data.push(l0);
    data.push(l1);
    data.extend_from_slice(payload.as_slice());
    proof {
        assert(data@ =~= frame_header(frame_type, payload@) + payload@);
    }
    let c = crc16(data.as_slice());
    let (c0, c1) = u16_to_le(c);
    data.push(c0);
    data.push(c1);
    proof {
        assert(data@ =~= frame_spec(frame_type, payload@));
    }
    data
}

/// Whether the two-byte prefix starts at index `i` of `s`.
pub open spec fn prefix_at(s: Seq<u8>, i: int) -> bool {
    0 <= i && i + 1 < s.len() && s[i] == PREFIX_BYTE && s[i + 1] == PREFIX_BYTE
}

/// Whether the two-byte prefix occurs anywhere in `s`.
pub open spec fn has_prefix(s: Seq<u8>) -> bool {
    exists|i: int| prefix_at(s, i)
}

/// Index of the first two-byte prefix in `hay`.
fn find_prefix(hay: &[u8]) -> (r: Option<usize>)
    ensures
        r is None <==> !has_prefix(hay@),
        r matches Some(i) ==> prefix_at(hay@, i as int) && forall|j: int| 0 <= j < i ==> !prefix_at(hay@, j),
{
    let n = hay.len();
    if n < 2 {
        return None;
    }
    let mut i: usize = 0;
    while i + 1 < n
        invariant
            n == hay.len(),
            n >= 2,
            i + 1 <= n,
            forall|j: int| 0 <= j < i ==> !prefix_at(hay@, j),
        decreases n - i,
    {
        if hay[i] == PREFIX_BYTE && hay[i + 1] == PREFIX_BYTE {
            proof {
                assert(prefix_at(hay@, i as int));
            }
            return Some(i);
        }
        i = i + 1;
    }
    proof {
        assert forall|j: int| !prefix_at(hay@, j) by {
            if 0 <= j < i {
            }
        }
    }
    None
}

/// The payload length field of the frame at the start of `d`.
pub open spec fn frame_field(d: Seq<u8>) -> int {
    le_u16(d[4], d[5]) as int
}

/// What the frame reassembler makes of the buffered bytes `d`: the payloads of the
/// complete, CRC-valid frames it cuts, in order, and the bytes it keeps for later.
pub open spec fn scan_frames(d: Seq<u8>) -> (Seq<Seq<u8>>, Seq<u8>)
    decreases d.len(),
{
    if d.len() < 2 {
        if d.len() == 1 && d[0] == PREFIX_BYTE {
            (Seq::empty(), d)
        } else {
            (Seq::empty(), Seq::empty())
        }
    } else if !prefix_at(d, 0) {
        scan_frames(d.drop_first())
    } else if d.len() < 8 {
        (Seq::empty(), d)
    } else if frame_field(d) < 2 || frame_field(d) > MAX_PAYLOAD_FIELD {
        scan_frames(d.skip(2))
    } else if 6 + frame_field(d) > d.len() {
        if has_prefix(d.skip(2)) {
            scan_frames(d.skip(2))
        } else {
            (Seq::empty(), d)
        }
    } else {
        let end = 6 + frame_field(d);
        if crc16_spec(d.take(end - 2)) != le_u16(d[end - 2], d[end - 1]) {
            scan_frames(d.skip(2))
        } else {
            let r = scan_frames(d.skip(end));
            (seq![d.subrange(6, end - 2)] + r.0, r.1)
        }
    }
}

/// Skipping bytes that hold no prefix does not change what is scanned.
proof fn lemma_scan_frames_skip(s: Seq<u8>, k: int)
    requires
        0 <= k < s.len() || k == 0,
        forall|j: int| 0 <= j < k ==> !prefix_at(s, j),
    ensures
        scan_frames(s.skip(k)) == scan_frames(s),
    decreases k,
{
    if k > 0 {
        if s.len() >= 2 {
            assert(!prefix_at(s, 0));
            assert forall|j: int| 0 <= j < k - 1 implies !prefix_at(s.drop_first(), j) by {
                assert(!prefix_at(s, j + 1));
            }
            lemma_scan_frames_skip(s.drop_first(), k - 1);
            assert(s.drop_first().skip(k - 1) =~= s.skip(k));
        }
    } else {
        assert(s.skip(0) =~= s);
    }
}

/// Streaming reassembler that yields the raw (still-encrypted) payload of each complete,
/// CRC-valid frame. Callers decrypt afterwards (or not, during the handshake).
pub struct FrameReader {
    buf: Vec<u8>,
}

impl FrameReader {
    /// The bytes held back for the next call of [`FrameReader::push`].
    pub closed spec fn pending(&self) -> Seq<u8> {
        self.buf@
    }

    /// An empty reassembler.
    pub fn new() -> (r: FrameReader)
        ensures
            r.pending() == Seq::<u8>::empty(),
    {
        FrameReader { buf: Vec::new() }
    }

    /// Feed newly received bytes, get back zero or more complete frame payloads.
    pub fn push(&mut self, incoming: &[u8]) -> (out: Vec<Vec<u8>>)
        ensures
            frames_view(out@) == scan_frames(old(self).pending() + incoming@).0,
            final(self).pending() == scan_frames(old(self).pending() + incoming@).1,
    {
        let mut data: Vec<u8> = Vec::new();
        std::mem::swap(&mut data, &mut self.buf);
        data.extend_from_slice(incoming);
        let ghost all = data@;
        proof {
            assert(all =~= old(self).pending() + incoming@);
            assert(all.skip(0) =~= all);
        }
        let mut out: Vec<Vec<u8>> = Vec::new();
        let mut pos: usize = 0;
        let mut keep_all = false;
        loop
            invariant_except_break
                !keep_all,
            invariant
                data@ == all,
                pos <= data.len(),
                frames_view(out@) + scan_frames(all.skip(pos as int)).0 == scan_frames(all).0,
                scan_frames(all.skip(pos as int)).1 == scan_frames(all).1,
            ensures
                pos <= data.len(),
                scan_frames(all.skip(pos as int)).0 == Seq::<Seq<u8>>::empty(),
                keep_all ==> scan_frames(all.skip(pos as int)).1 == all.skip(pos as int),
                !keep_all ==> scan_frames(all.skip(pos as int)).1 == Seq::<u8>::empty(),
            decreases data.len() - pos,
        {
            let ghost d = all.skip(pos as int);
            let s = match find_prefix(&data[pos..data.len()]) {
                None => {
                    proof {
                        assert(data@.subrange(pos as int, data.len() as int) =~= d);
                        if d.len() >= 2 {
                            lemma_scan_frames_skip(d, d.len() - 1);
                            assert(d.skip(d.len() - 1).len() == 1);
                        }
                    }
                    if pos < data.len() && data[data.len() - 1] == PREFIX_BYTE {
                        proof {
                            assert(d.skip(d.len() - 1) =~= all.skip(data.len() - 1));
                            assert(d.len() == 1 ==> d =~= all.skip(data.len() - 1));
                        }
                        pos = data.len() - 1;
                        keep_all = true;
                    }
                    break;
                },
                Some(s) => s,
            };
            proof {
                assert(data@.subrange(pos as int, data.len() as int) =~= d);
                lemma_scan_frames_skip(d, s as int);
                assert(d.skip(s as int) =~= all.skip(pos + s));
                assert(prefix_at(d.skip(s as int), 0));
            }
            pos = pos + s;
            let ghost d = all.skip(pos as int);
            if data.len() - pos < 8 {
                keep_all = true;
                break;
            }
            let field = u16_from_le(data[pos + 4], data[pos + 5]) as usize;
            if field < 2 || field > MAX_PAYLOAD_FIELD {
                proof {
                    assert(d.skip(2) =~= all.skip(pos + 2));
                }
                pos = pos + 2;
                continue;
            }
            let end = 6 + field;
            if end > data.len() - pos {
                match find_prefix(&data[pos + 2..data.len()]) {
                    Some(_) => {
                        proof {
                            assert(data@.subrange(pos + 2, data.len() as int) =~= d.skip(2));
                            assert(d.skip(2) =~= all.skip(pos + 2));
                        }
                        pos = pos + 2;
                        continue;
                    },
                    None => {
                        proof {
                            assert(data@.subrange(pos + 2, data.len() as int) =~= d.skip(2));
                        }
                        keep_all = true;
                        break;
                    },
                }
            }
            let want = u16_from_le(data[pos + end - 2], data[pos + end - 1]);
            proof {
                assert(data@.subrange(pos as int, pos + end - 2) =~= d.take(end - 2));
            }
            if crc16(&data[pos..pos + end - 2]) != want {
                proof {
                    assert(d.skip(2) =~= all.skip(pos + 2));
                }
                pos = pos + 2;
                continue;
            }
            let payload = vstd::slice::slice_to_vec(&data[pos + 6..pos + end - 2]);
            proof {
                assert(payload@ =~= d.subrange(6, end - 2));
                assert(d.skip(end as int) =~= all.skip(pos + end));
                let r = scan_frames(d.skip(end as int));
                assert(frames_view(out@.push(payload)) =~= frames_view(out@) + seq![payload@]);
                assert((frames_view(out@) + seq![payload@]) + r.0 =~= frames_view(out@) + (
                seq![payload@] + r.0));
            }
            out.push(payload);
            pos = pos + end;
        }
        let rest = if keep_all {
            vstd::slice::slice_to_vec(&data[pos..data.len()])
        } else {
            Vec::new()
        };
        proof {
            assert(keep_all ==> rest@ =~= all.skip(pos as int));
            assert(frames_view(out@) + Seq::<Seq<u8>>::empty() =~= frames_view(out@));
        }
        self.buf = rest;
        out
    }
}

/// A reassembler that receives exactly one encoded frame (payload of at most 9998 bytes)
/// yields exactly its payload and keeps nothing back.
pub proof fn lemma_scan_frames_encoded(frame_type: u8, payload: Seq<u8>)
    requires
        payload.len() + 2 <= MAX_PAYLOAD_FIELD,
    ensures
        scan_frames(frame_spec(frame_type, payload)) == (seq![payload], Seq::<u8>::empty()),
{
    let f = frame_spec(frame_type, payload);
    let b = frame_header(frame_type, payload) + payload;
    let n = payload.len();
    assert((n + 2) % 0x10000 == n + 2);
    lemma_u16_le_roundtrip((n + 2) as u16);
    lemma_u16_le_roundtrip(crc16_spec(b));
    assert(prefix_at(f, 0));
    assert(f.len() == n + 8);
    assert(frame_field(f) == n + 2);
    let end = 6 + frame_field(f);
    assert(end == f.len());
    assert(f.len() >= 8);
    assert(f.take(end - 2) =~= b);
    assert(f.subrange(6, end - 2) =~= payload);
    assert(f.skip(end) =~= Seq::<u8>::empty());
    assert(scan_frames(f.skip(end)) == (Seq::<Seq<u8>>::empty(), Seq::<u8>::empty()));
    assert(seq![payload] + Seq::<Seq<u8>>::empty() =~= seq![payload]);
}

/// A frame (payload of at most 9998 bytes, no second prefix inside it) split across two
/// notifications at any point is reassembled: the first call and the second together
/// yield exactly its payload, and nothing is kept back.
pub proof fn lemma_scan_frames_split(frame_type: u8, payload: Seq<u8>, k: int)
    requires
        payload.len() + 2 <= MAX_PAYLOAD_FIELD,
        forall|i: int| 0 < i ==> !prefix_at(frame_spec(frame_type, payload), i),
        0 <= k <= frame_spec(frame_type, payload).len(),
    ensures
        ({
            let f = frame_spec(frame_type, payload);
            let a = scan_frames(f.take(k));
            let b = scan_frames(a.1 + f.skip(k));
            &&& a.0 + b.0 == seq![payload]
            &&& b.1 == Seq::<u8>::empty()
        }),
{
    let f = frame_spec(frame_type, payload);
    lemma_scan_frames_encoded(frame_type, payload);
    let t = f.take(k);
    let a = scan_frames(t);
    if k == 0 {
        assert(t.len() == 0);
        assert(a == (Seq::<Seq<u8>>::empty(), Seq::<u8>::empty()));
        assert(a.1 + f.skip(k) =~= f);
        assert(Seq::<Seq<u8>>::empty() + seq![payload] =~= seq![payload]);
    } else if k == 1 {
        assert(t.len() == 1 && t[0] == PREFIX_BYTE);
        assert(a == (Seq::<Seq<u8>>::empty(), t));
        assert(t + f.skip(k) =~= f);
        assert(Seq::<Seq<u8>>::empty() + seq![payload] =~= seq![payload]);
    } else if k == f.len() {
        assert(t =~= f);
        assert(a.1 + f.skip(k) =~= Seq::<u8>::empty());
        assert(seq![payload] + Seq::<Seq<u8>>::empty() =~= seq![payload]);
    } else {
        let n = payload.len();
        assert((n + 2) % 0x10000 == n + 2);
        lemma_u16_le_roundtrip((n + 2) as u16);
        assert(f.len() == n + 8);
        assert(prefix_at(f, 0));
        assert(prefix_at(t, 0));
        if t.len() >= 8 {
            assert(frame_field(t) == frame_field(f));
            assert(frame_field(f) == n + 2);
            assert(6 + frame_field(t) > t.len());
            assert(!has_prefix(t.skip(2))) by {
                assert forall|j: int| !prefix_at(t.skip(2), j) by {
                    if prefix_at(t.skip(2), j) {
                        assert(prefix_at(f, j + 2));
                    }
                }
            }
        }
        assert(a == (Seq::<Seq<u8>>::empty(), t));
        assert(t + f.skip(k) =~= f);
        assert(Seq::<Seq<u8>>::empty() + seq![payload] =~= seq![payload]);
    }
}

} // verus!

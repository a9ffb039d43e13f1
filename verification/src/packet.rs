//! Inner EcoFlow "Packet" codec (protocol V2 / V3) and the streaming reassembler.
//!
//! Wire layout for V2/V3:
//!
//! ```text
//!   AA | ver(1) | len(2 LE) | crc8(header 4B) | product(1) | seq(4) | 00 00 |
//!   src | dst | [dsrc | ddst  (V3+ only)] | cmd_set | cmd_id | payload | crc16(2 LE)
//! ```
use vstd::prelude::*;

use crate::bytes::{le_u16, lemma_u16_le_roundtrip, u16_from_le, u16_le, u16_to_le};
use crate::crc::{crc16, crc16_spec, crc8, crc8_spec};

verus! {

/// Prefix byte of every plaintext packet.
pub const PACKET_PREFIX: u8 = 0xAA;

/// One inner packet.
#[derive(Clone, Debug)]
pub struct Packet {
    pub src: u8,
    pub dst: u8,
    pub cmd_set: u8,
    pub cmd_id: u8,
    pub payload: Vec<u8>,
    pub dsrc: u8,
    pub ddst: u8,
    /// Full version byte (e.g. 0x02, 0x03); its low nibble is the protocol version.
    pub version: u8,
    pub seq: [u8; 4],
    pub product_id: i32,
}

/// The mathematical value of a [`Packet`].
pub struct PacketView {
    pub src: u8,
    pub dst: u8,
    pub cmd_set: u8,
    pub cmd_id: u8,
    pub payload: Seq<u8>,
    pub dsrc: u8,
    pub ddst: u8,
    pub version: u8,
    pub seq: Seq<u8>,
    pub product_id: i32,
}

impl View for Packet {
    type V = PacketView;

    open spec fn view(&self) -> PacketView {
        PacketView {
            src: self.src,
            dst: self.dst,
            cmd_set: self.cmd_set,
            cmd_id: self.cmd_id,
            payload: self.payload@,
            dsrc: self.dsrc,
            ddst: self.ddst,
            version: self.version,
            seq: self.seq@,
            product_id: self.product_id,
        }
    }
}

/// The view of an optional packet.
pub open spec fn packet_opt_view(p: Option<Packet>) -> Option<PacketView> {
    match p {
        Some(q) => Some(q@),
        None => None,
    }
}

/// The product byte written after the header CRC.
pub open spec fn product_byte_spec(p: PacketView) -> u8 {
    if p.product_id >= 0 {
        0x0d
    } else {
        0x0c
    }
}

/// Whether a version byte selects the V3 layout (with `dsrc`/`ddst`).
pub open spec fn has_extended_addr(version: u8) -> bool {
    (version & 0x0f) >= 3
}

/// The four header bytes covered by the CRC-8.
pub open spec fn header_spec(p: PacketView) -> Seq<u8> {
    let len = u16_le(p.payload.len() as u16);
    seq![PACKET_PREFIX, p.version, len[0], len[1]]
}

/// Every byte of the encoded packet but the trailing CRC-16.
pub open spec fn body_spec(p: PacketView) -> Seq<u8> {
    let h = header_spec(p);
    let ext = if has_extended_addr(p.version) {
        seq![p.dsrc, p.ddst]
    } else {
        Seq::<u8>::empty()
    };
    h + seq![crc8_spec(h), product_byte_spec(p)] + p.seq + seq![0u8, 0u8, p.src, p.dst] + ext
        + seq![p.cmd_set, p.cmd_id] + p.payload
}

/// The wire encoding of a packet.
pub open spec fn encode_spec(p: PacketView) -> Seq<u8> {
    let b = body_spec(p);
    b + u16_le(crc16_spec(b))
}

/// Every byte XORed with `k` (the identity when `k` is zero).
pub open spec fn xor_bytes(s: Seq<u8>, k: u8) -> Seq<u8> {
    if k != 0 {
        Seq::new(s.len(), |i: int| s[i] ^ k)
    } else {
        s
    }
}

/// Drop a trailing `BB BB` marker when the sentinel flag is set.
pub open spec fn strip_sentinel(s: Seq<u8>, sentinel: bool) -> Seq<u8> {
    if sentinel && s.len() >= 2 && s[s.len() - 2] == 0xbb && s[s.len() - 1] == 0xbb {
        s.take(s.len() - 2)
    } else {
        s
    }
}

/// The payload that a parse extracts from a frame whose payload starts at `start`
/// and whose length field says `len`.
pub open spec fn parsed_payload(d: Seq<u8>, start: int, len: int, k: u8, sentinel: bool) -> Seq<u8> {
    if len > 0 && start + len <= d.len() {
        strip_sentinel(xor_bytes(d.subrange(start, start + len), k), sentinel)
    } else {
        Seq::<u8>::empty()
    }
}

/// What parsing a V2/V3 frame yields: `None` on any validation failure.
pub open spec fn parse_spec(d: Seq<u8>) -> Option<PacketView> {
    if d.len() < 2 || d[0] != PACKET_PREFIX {
        None
    } else {
        let vb = d[1];
        let version = vb & 0x0f;
        let sentinel = (vb & 0x10) != 0;
        if (version == 2 && d.len() < 18) || (version == 3 && d.len() < 20) {
            None
        } else if version != 2 && version != 3 {
            None
        } else if !sentinel && crc16_spec(d.take(d.len() - 2)) != le_u16(
            d[d.len() - 2],
            d[d.len() - 1],
        ) {
            None
        } else if crc8_spec(d.take(4)) != d[4] {
            None
        } else {
            let v2 = version == 2;
            let start: int = if v2 { 16 } else { 18 };
            let len = le_u16(d[2], d[3]) as int;
            Some(PacketView {
                src: d[12],
                dst: d[13],
                cmd_set: if v2 { d[14] } else { d[16] },
                cmd_id: if v2 { d[15] } else { d[17] },
                payload: parsed_payload(d, start, len, d[6], sentinel),
                dsrc: if v2 { 0 } else { d[14] },
                ddst: if v2 { 0 } else { d[15] },
                version: vb,
                seq: d.subrange(6, 10),
                product_id: 0,
            })
        }
    }
}

impl Packet {
    /// A packet with default routing extras (`dsrc = ddst = 1`), zero sequence and product.
    pub fn new(src: u8, dst: u8, cmd_set: u8, cmd_id: u8, payload: Vec<u8>, version: u8) -> (r:
        Packet)
        ensures
            r@ == (PacketView {
                src,
                dst,
                cmd_set,
                cmd_id,
                payload: payload@,
                dsrc: 1,
                ddst: 1,
                version,
                seq: seq![0u8, 0u8, 0u8, 0u8],
                product_id: 0,
            }),
    {
        let r = Packet {
            src,
            dst,
            cmd_set,
            cmd_id,
            payload,
            dsrc: 1,
            ddst: 1,
            version,
            seq: [0, 0, 0, 0],
            product_id: 0,
        };
        proof {
            assert(r.seq@ =~= seq![0u8, 0u8, 0u8, 0u8]);
        }
        r
    }

    fn product_byte(&self) -> (b: u8)
        ensures
            b == product_byte_spec(self@),
    {
        if self.product_id >= 0 {
            0x0d
        } else {
            0x0c
        }
    }

    /// Encode to wire bytes.
    pub fn to_bytes(&self) -> (r: Vec<u8>)
        ensures
            r@ == encode_spec(self@),
    {
        let mut data: Vec<u8> = Vec::new();
        data.push(PACKET_PREFIX);
        data.push(self.version);
        let (l0, l1) = u16_to_le(self.payload.len() as u16);
        data.push(l0);
        data.push(l1);
        let ghost h = data@;
        proof {
            assert(h =~= header_spec(self@));
        }
        let hc = crc8(data.as_slice());
        data.push(hc);
        data.push(self.product_byte());
        data.push(self.seq[0]);
        data.push(self.seq[1]);
        data.push(self.seq[2]);
        data.push(self.seq[3]);
        data.push(0x00);
        data.push(0x00);
        data.push(self.src);
        data.push(self.dst);
        if (self.version & 0x0f) >= 0x03 {
            data.push(self.dsrc);
            data.push(self.ddst);
        }
        data.push(self.cmd_set);
        data.push(self.cmd_id);
        data.extend_from_slice(self.payload.as_slice());
        proof {
            assert(data@ =~= body_spec(self@));
        }
        let c = crc16(data.as_slice());
        let (c0, c1) = u16_to_le(c);
        data.push(c0);
        data.push(c1);
        proof {
            assert(data@ =~= encode_spec(self@));
        }
        data
    }

    /// Parse a V2/V3 packet. Returns `None` on any validation failure.
    pub fn from_bytes(data: &[u8]) -> (r: Option<Packet>)
        ensures
            packet_opt_view(r) == parse_spec(data@),
    {
        if data.len() < 2 || data[0] != PACKET_PREFIX {
            return None;
        }
        let version_byte = data[1];
        let version = version_byte & 0x0f;
        let sentinel_format = (version_byte & 0x10) != 0;

        if (version == 2 && data.len() < 18) || (version == 3 && data.len() < 20) {
            return None;
        }
        if version != 2 && version != 3 {
            return None;
        }
        let payload_length = u16_from_le(data[2], data[3]) as usize;

        if !sentinel_format {
            let n = data.len();
            let want = u16_from_le(data[n - 2], data[n - 1]);
            if crc16(&data[0..n - 2]) != want {
                return None;
            }
        }
        if crc8(&data[0..4]) != data[4] {
            return None;
        }
        let seq: [u8; 4] = [data[6], data[7], data[8], data[9]];
        let src = data[12];
        let dst = data[13];
        let v2 = version == 2;
        let (dsrc, ddst, payload_start) = if v2 {
            (0u8, 0u8, 16usize)
        } else {
            (data[14], data[15], 18usize)
        };
        let (cmd_set, cmd_id) = if v2 {
            (data[14], data[15])
        } else {
            (data[16], data[17])
        };

        let mut payload: Vec<u8> = Vec::new();
        if payload_length > 0 && payload_start + payload_length <= data.len() {
            let k = seq[0];
            let mut i: usize = 0;
            while i < payload_length
                invariant
                    i <= payload_length,
                    payload_start + payload_length <= data.len(),
                    payload@ =~= xor_bytes(
                        data@.subrange(payload_start as int, payload_start + payload_length),
                        k,
                    ).take(i as int),
                decreases payload_length - i,
            {
                let b = data[payload_start + i];
                if k != 0 {
                    payload.push(b ^ k);
                } else {
                    payload.push(b);
                }
                i = i + 1;
            }
            let ghost raw = xor_bytes(
                data@.subrange(payload_start as int, payload_start + payload_length),
                k,
            );
            proof {
                assert(raw.len() == payload_length);
                assert(payload@ =~= raw);
            }
            let n = payload.len();
            if sentinel_format && n >= 2 && payload[n - 2] == 0xbb && payload[n - 1] == 0xbb {
                payload.truncate(n - 2);
            }
        }
        let r = Packet {
            src,
            dst,
            cmd_set,
            cmd_id,
            payload,
            dsrc,
            ddst,
            version: version_byte,
            seq,
            product_id: 0,
        };
        proof {
            assert(r.seq@ =~= data@.subrange(6, 10));
            assert(data@.take(4) =~= data@.subrange(0, 4));
            assert(data@.take(data.len() - 2) =~= data@.subrange(0, data.len() - 2));
            assert(payload_length == le_u16(data@[2], data@[3]) as int);
            assert(r.payload@ =~= parsed_payload(
                data@,
                payload_start as int,
                payload_length as int,
                data@[6],
                sentinel_format,
            ));
        }
        Some(r)
    }
}

/// The packet that parsing gives back for an encoded packet: the same routing, version
/// and sequence, `dsrc`/`ddst` only for V3, the payload as the parser unmasks it (XOR with
/// `seq[0]`, then the sentinel marker strip), and product id 0.
pub open spec fn decoded_view(p: PacketView) -> PacketView {
    let v2 = (p.version & 0x0f) == 2;
    PacketView {
        src: p.src,
        dst: p.dst,
        cmd_set: p.cmd_set,
        cmd_id: p.cmd_id,
        payload: strip_sentinel(xor_bytes(p.payload, p.seq[0]), (p.version & 0x10) != 0),
        dsrc: if v2 { 0 } else { p.dsrc },
        ddst: if v2 { 0 } else { p.ddst },
        version: p.version,
        seq: p.seq,
        product_id: 0,
    }
}

/// Parsing an encoded V2/V3 packet succeeds and gives the packet back (as
/// [`decoded_view`] describes; for a zero `seq[0]` and a clear sentinel bit that is the
/// packet itself, up to `dsrc`/`ddst` of V2 and the product id).
pub proof fn lemma_parse_encode_roundtrip(p: PacketView)
    requires
        p.seq.len() == 4,
        (p.version & 0x0f) == 2 || (p.version & 0x0f) == 3,
        p.payload.len() <= 0xffff,
    ensures
        parse_spec(encode_spec(p)) == Some(decoded_view(p)),
{
    let b = body_spec(p);
    let e = encode_spec(p);
    let h = header_spec(p);
    let v2 = (p.version & 0x0f) == 2;
    let start: int = if v2 { 16 } else { 18 };
    let n = p.payload.len();
    lemma_u16_le_roundtrip(n as u16);
    lemma_u16_le_roundtrip(crc16_spec(b));
    assert(v2 ==> !has_extended_addr(p.version));
    assert(!v2 ==> has_extended_addr(p.version));
    assert(b.len() == start + n);
    assert(e.len() == start + n + 2);
    assert(e.take(e.len() - 2) =~= b);
    assert(e.take(4) =~= h);
    assert(e.subrange(6, 10) =~= p.seq);
    assert(e.subrange(start, start + n) =~= p.payload);
    assert((n as u16) as int == n);
    let d = parse_spec(e).unwrap();
    assert(d.payload =~= decoded_view(p).payload);
}

/// Offset of the payload for a frame whose version byte is `vb`.
pub open spec fn payload_start_spec(vb: u8) -> int {
    if (vb & 0x0f) >= 3 {
        18
    } else {
        16
    }
}

/// The length of the whole frame (header, addressing, payload, CRC-16) announced by the
/// header at the start of `d`.
pub open spec fn frame_len_spec(d: Seq<u8>) -> int {
    payload_start_spec(d[1]) + le_u16(d[2], d[3]) as int + 2
}

/// What the reassembler makes of the buffered bytes `d`: the complete frames it cuts, in
/// order, and the bytes it keeps for later. Bytes before a prefix are dropped, a prefix
/// whose header CRC-8 does not validate is skipped, and an incomplete frame is kept.
pub open spec fn scan_packets(d: Seq<u8>) -> (Seq<Seq<u8>>, Seq<u8>)
    decreases d.len(),
{
    if d.len() == 0 {
        (Seq::empty(), Seq::empty())
    } else if d[0] != PACKET_PREFIX {
        scan_packets(d.drop_first())
    } else if d.len() < 5 {
        (Seq::empty(), d)
    } else if crc8_spec(d.take(4)) != d[4] {
        scan_packets(d.drop_first())
    } else if d.len() < frame_len_spec(d) {
        (Seq::empty(), d)
    } else {
        let r = scan_packets(d.skip(frame_len_spec(d)));
        (seq![d.take(frame_len_spec(d))] + r.0, r.1)
    }
}

/// The byte contents of a list of frames.
pub open spec fn frames_view(v: Seq<Vec<u8>>) -> Seq<Seq<u8>> {
    v.map_values(|f: Vec<u8>| f@)
}

/// Streaming reassembler for plaintext AA packets.
///
/// Scans for the 0xAA prefix, validates the header CRC8, uses the length field to cut
/// each frame, and yields complete frames ready for `Packet::from_bytes`. Handles several
/// packets per BLE notification and packets split across notifications.
pub struct PacketReader {
    buf: Vec<u8>,
}

impl PacketReader {
    /// The bytes held back for the next call of [`PacketReader::push`].
    pub closed spec fn pending(&self) -> Seq<u8> {
        self.buf@
    }

    /// An empty reassembler.
    pub fn new() -> (r: PacketReader)
        ensures
            r.pending() == Seq::<u8>::empty(),
    {
        PacketReader { buf: Vec::new() }
    }

    /// Feed newly received bytes; get back the complete frames, in order.
    pub fn push(&mut self, incoming: &[u8]) -> (out: Vec<Vec<u8>>)
        ensures
            frames_view(out@) == scan_packets(old(self).pending() + incoming@).0,
            final(self).pending() == scan_packets(old(self).pending() + incoming@).1,
    {
        let mut data: Vec<u8> = Vec::new();
        std::mem::swap(&mut data, &mut self.buf);
        data.extend_from_slice(incoming);
        let ghost all = data@;
        proof {
            assert(all =~= old(self).pending() + incoming@);
            assert(all.skip(0) =~= all);
        }
        let mut out: Vec<Vec<u8>> = Vec::new();
        let mut pos: usize = 0;
        loop
            invariant
                data@ == all,
                pos <= data.len(),
                frames_view(out@) + scan_packets(all.skip(pos as int)).0 == scan_packets(all).0,
                scan_packets(all.skip(pos as int)).1 == scan_packets(all).1,
            ensures
                pos <= data.len(),
                scan_packets(all.skip(pos as int)).0 == Seq::<Seq<u8>>::empty(),
                scan_packets(all.skip(pos as int)).1 == all.skip(pos as int),
            decreases data.len() - pos,
        {
            let ghost before = pos;
            let mut j = pos;
            while j < data.len() && data[j] != PACKET_PREFIX
                invariant
                    data@ == all,
                    before <= j <= data.len(),
                    scan_packets(all.skip(j as int)) == scan_packets(all.skip(before as int)),
                decreases data.len() - j,
            {
                proof {
                    assert(all.skip(j as int).drop_first() =~= all.skip(j + 1));
                }
                j = j + 1;
            }
            pos = j;
            if pos == data.len() {
                proof {
                    assert(all.skip(pos as int) =~= Seq::<u8>::empty());
                }
                break;
            }
            let ghost d = all.skip(pos as int);
            if data.len() - pos < 5 {
                break;
            }
            proof {
                assert(d.take(4) =~= all.subrange(pos as int, pos + 4));
            }
            if crc8(&data[pos..pos + 4]) != data[pos + 4] {
                proof {
                    assert(d.drop_first() =~= all.skip(pos + 1));
                }
                pos = pos + 1;
                continue;
            }
            let payload_length = u16_from_le(data[pos + 2], data[pos + 3]) as usize;
            let version = data[pos + 1] & 0x0f;
            let payload_start: usize = if version >= 3 {
                18
            } else {
                16
            };
            let frame_len = payload_start + payload_length + 2;
            proof {
                assert(frame_len == frame_len_spec(d));
            }
            if data.len() - pos < frame_len {
                break;
            }
            let frame = vstd::slice::slice_to_vec(&data[pos..pos + frame_len]);
            proof {
                assert(frame@ =~= d.take(frame_len as int));
                assert(d.skip(frame_len as int) =~= all.skip(pos + frame_len));
                let r = scan_packets(d.skip(frame_len as int));
                assert(frames_view(out@.push(frame)) =~= frames_view(out@) + seq![frame@]);
                assert(seq![frame@] + r.0 == scan_packets(d).0);
                assert((frames_view(out@) + seq![frame@]) + r.0 =~= frames_view(out@) + (seq![frame@] + r.0));
            }
            out.push(frame);
            pos = pos + frame_len;
        }
        let rest = vstd::slice::slice_to_vec(&data[pos..data.len()]);
        proof {
            assert(rest@ =~= all.skip(pos as int));
            assert(frames_view(out@) + Seq::<Seq<u8>>::empty() =~= frames_view(out@));
        }
        self.buf = rest;
        out
    }
}

/// Reassembly does not depend on how the bytes were split into notifications: scanning
/// `x` and then the kept bytes followed by `y` cuts the same frames, and keeps the same
/// bytes, as scanning `x + y` at once.
pub proof fn lemma_scan_packets_split(x: Seq<u8>, y: Seq<u8>)
    ensures
        scan_packets(x + y).0 == scan_packets(x).0 + scan_packets(scan_packets(x).1 + y).0,
        scan_packets(x + y).1 == scan_packets(scan_packets(x).1 + y).1,
    decreases x.len(),
{
    let xy = x + y;
    if x.len() == 0 {
        assert(xy =~= y);
        assert(scan_packets(x).1 + y =~= y);
        assert(Seq::<Seq<u8>>::empty() + scan_packets(y).0 =~= scan_packets(y).0);
    } else if x[0] != PACKET_PREFIX {
        assert(xy.drop_first() =~= x.drop_first() + y);
        lemma_scan_packets_split(x.drop_first(), y);
    } else if x.len() < 5 {
        assert(Seq::<Seq<u8>>::empty() + scan_packets(xy).0 =~= scan_packets(xy).0);
    } else if crc8_spec(x.take(4)) != x[4] {
        assert(xy.take(4) =~= x.take(4));
        assert(xy.drop_first() =~= x.drop_first() + y);
        lemma_scan_packets_split(x.drop_first(), y);
    } else if x.len() < frame_len_spec(x) {
        assert(Seq::<Seq<u8>>::empty() + scan_packets(xy).0 =~= scan_packets(xy).0);
    } else {
        let fl = frame_len_spec(x);
        assert(xy.take(4) =~= x.take(4));
        assert(frame_len_spec(xy) == fl);
        assert(xy.take(fl) =~= x.take(fl));
        assert(xy.skip(fl) =~= x.skip(fl) + y);
        lemma_scan_packets_split(x.skip(fl), y);
        let rx = scan_packets(x.skip(fl));
        let ry = scan_packets(rx.1 + y);
        assert(seq![x.take(fl)] + (rx.0 + ry.0) =~= (seq![x.take(fl)] + rx.0) + ry.0);
    }
}

/// What a reassembler holding `pending` gives when it is fed the chunks `cs` one after
/// another: every frame it cuts, in order, and the bytes it keeps at the end.
pub open spec fn scan_chunks(pending: Seq<u8>, cs: Seq<Seq<u8>>) -> (Seq<Seq<u8>>, Seq<u8>)
    decreases cs.len(),
{
    if cs.len() == 0 {
        (Seq::empty(), pending)
    } else {
        let r = scan_packets(pending + cs[0]);
        let rest = scan_chunks(r.1, cs.drop_first());
        (r.0 + rest.0, rest.1)
    }
}

/// However a byte stream is cut into one or more notifications, feeding them one by one
/// cuts the same frames, in the same order, and keeps the same bytes, as feeding their
/// concatenation at once.
pub proof fn lemma_scan_chunks(pending: Seq<u8>, cs: Seq<Seq<u8>>)
    requires
        cs.len() > 0,
    ensures
        scan_chunks(pending, cs) == scan_packets(pending + cs.flatten()),
    decreases cs.len(),
{
    let x = pending + cs[0];
    let r = scan_packets(x);
    if cs.len() == 1 {
        assert(cs.drop_first().flatten() =~= Seq::<u8>::empty());
        assert(pending + cs.flatten() =~= x);
        assert(r.0 + Seq::<Seq<u8>>::empty() =~= r.0);
        assert(cs.drop_first().len() == 0);
        assert(scan_chunks(r.1, cs.drop_first()) == (Seq::<Seq<u8>>::empty(), r.1));
        assert(scan_chunks(pending, cs).0 == r.0);
        assert(scan_chunks(pending, cs).1 == r.1);
    } else {
        lemma_scan_chunks(r.1, cs.drop_first());
        let y = cs.drop_first().flatten();
        lemma_scan_packets_split(x, y);
        assert(pending + cs.flatten() =~= x + y);
        let rest = scan_chunks(r.1, cs.drop_first());
        assert(scan_chunks(pending, cs).0 == r.0 + rest.0);
        assert(scan_chunks(pending, cs).1 == rest.1);
        assert(scan_packets(x + y).0 == r.0 + rest.0);
        assert(scan_packets(x + y).1 == rest.1);
    }
}

/// A fresh reassembler fed any list of chunks, one after another, yields what it yields
/// when fed their concatenation at once.
pub proof fn lemma_scan_chunks_fresh(cs: Seq<Seq<u8>>)
    ensures
        scan_chunks(Seq::<u8>::empty(), cs) == scan_packets(cs.flatten()),
{
    if cs.len() > 0 {
        lemma_scan_chunks(Seq::<u8>::empty(), cs);
        assert(Seq::<u8>::empty() + cs.flatten() =~= cs.flatten());
    } else {
        assert(scan_packets(Seq::<u8>::empty()) == (Seq::<Seq<u8>>::empty(), Seq::<u8>::empty()));
    }
}

/// A reassembler that receives exactly one encoded packet yields exactly that frame and
/// keeps nothing back.
pub proof fn lemma_scan_packets_encoded(p: PacketView)
    requires
        p.seq.len() == 4,
        p.payload.len() <= 0xffff,
    ensures
        scan_packets(encode_spec(p)) == (seq![encode_spec(p)], Seq::<u8>::empty()),
{
    let e = encode_spec(p);
    let b = body_spec(p);
    let n = p.payload.len();
    lemma_u16_le_roundtrip(n as u16);
    assert((n as u16) as int == n);
    assert(e.take(4) =~= header_spec(p));
    assert(b.len() == payload_start_spec(p.version) + n);
    assert(frame_len_spec(e) == e.len());
    assert(e.take(e.len() as int) =~= e);
    assert(e.skip(e.len() as int) =~= Seq::<u8>::empty());
    assert(e[0] == PACKET_PREFIX);
    assert(e[4] == crc8_spec(header_spec(p)));
    assert(e.len() >= 18);
    let r = scan_packets(e.skip(e.len() as int));
    assert(r == (Seq::<Seq<u8>>::empty(), Seq::<u8>::empty()));
    assert(seq![e] + Seq::<Seq<u8>>::empty() =~= seq![e]);
}

/// Whether `f` is a whole frame: prefix, valid header CRC-8, and exactly the length its
/// header announces.
pub open spec fn is_whole_frame(f: Seq<u8>) -> bool {
    &&& f.len() >= 5
    &&& f[0] == PACKET_PREFIX
    &&& crc8_spec(f.take(4)) == f[4]
    &&& f.len() == frame_len_spec(f)
}

/// Every frame the reassembler cuts is a whole frame, and the bytes it keeps are either
/// empty or start with a prefix.
pub proof fn lemma_scan_packets_whole_frames(d: Seq<u8>)
    ensures
        forall|i: int| 0 <= i < scan_packets(d).0.len() ==> is_whole_frame(#[trigger] scan_packets(d).0[i]),
        scan_packets(d).1.len() == 0 || scan_packets(d).1[0] == PACKET_PREFIX,
    decreases d.len(),
{
    if d.len() == 0 {
    } else if d[0] != PACKET_PREFIX {
        lemma_scan_packets_whole_frames(d.drop_first());
    } else if d.len() < 5 {
    } else if crc8_spec(d.take(4)) != d[4] {
        lemma_scan_packets_whole_frames(d.drop_first());
    } else if d.len() < frame_len_spec(d) {
    } else {
        let fl = frame_len_spec(d);
        lemma_scan_packets_whole_frames(d.skip(fl));
        let f = d.take(fl);
        assert(f.take(4) =~= d.take(4));
        assert(frame_len_spec(f) == fl);
        let out = scan_packets(d).0;
        let rest = scan_packets(d.skip(fl)).0;
        assert forall|i: int| 0 <= i < out.len() implies is_whole_frame(#[trigger] out[i]) by {
            if i > 0 {
                assert(out[i] == rest[i - 1]);
            }
        }
    }
}

} // verus!

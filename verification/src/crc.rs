//! CRC-8 and CRC-16 used by the EcoFlow BLE wire protocol.
//!
//!   crc8 : width=8,  poly=0x07,   init=0x00, no reflection   (CRC-8/CCITT)
//!   crc16: width=16, poly=0x8005, init=0x0000, reflected in/out (CRC-16/ARC)
use vstd::prelude::*;

use crate::bytes::u16_le;

verus! {

/// One bit step of the (non-reflected) CRC-8 register with polynomial 0x07.
pub open spec fn crc8_bit(c: u8) -> u8 {
    if c & 0x80 != 0 {
        ((c << 1u8) ^ 0x07u8) as u8
    } else {
        (c << 1u8) as u8
    }
}

/// `n` bit steps of the CRC-8 register.
pub open spec fn crc8_bits(c: u8, n: nat) -> u8
    decreases n,
{
    if n == 0 {
        c
    } else {
        crc8_bits(crc8_bit(c), (n - 1) as nat)
    }
}

/// The CRC-8 register after absorbing one byte.
pub open spec fn crc8_byte(c: u8, b: u8) -> u8 {
    crc8_bits(c ^ b, 8)
}

/// CRC-8 of a byte sequence: the register, starting at zero, after absorbing every byte
/// in order.
pub open spec fn crc8_spec(s: Seq<u8>) -> u8
    decreases s.len(),
{
    if s.len() == 0 {
        0
    } else {
        crc8_byte(crc8_spec(s.drop_last()), s.last())
    }
}

/// One bit step of the reflected CRC-16 register (reflected polynomial 0xA001).
pub open spec fn crc16_bit(c: u16) -> u16 {
    if c & 1 != 0 {
        ((c >> 1u16) ^ 0xA001u16) as u16
    } else {
        (c >> 1u16) as u16
    }
}

/// `n` bit steps of the CRC-16 register.
pub open spec fn crc16_bits(c: u16, n: nat) -> u16
    decreases n,
{
    if n == 0 {
        c
    } else {
        crc16_bits(crc16_bit(c), (n - 1) as nat)
    }
}

/// The CRC-16 register after absorbing one byte.
pub open spec fn crc16_byte(c: u16, b: u8) -> u16 {
    crc16_bits(c ^ (b as u16), 8)
}

/// CRC-16/ARC of a byte sequence.
pub open spec fn crc16_spec(s: Seq<u8>) -> u16
    decreases s.len(),
{
    if s.len() == 0 {
        0
    } else {
        crc16_byte(crc16_spec(s.drop_last()), s.last())
    }
}

/// CRC-8/CCITT (poly 0x07, init 0, no reflection).
pub fn crc8(data: &[u8]) -> (crc: u8)
    ensures
        crc == crc8_spec(data@),
{
    let mut crc: u8 = 0x00;
    let mut i: usize = 0;
    while i < data.len()
        invariant
            i <= data.len(),
            crc == crc8_spec(data@.take(i as int)),
        decreases data.len() - i,
    {
        let b = data[i];
        let ghost start = crc ^ b;
        crc = crc ^ b;
        let mut k: u8 = 0;
        while k < 8
            invariant
                k <= 8,
                crc == crc8_bits(start, k as nat),
            decreases 8 - k,
        {
            proof {
                lemma_crc8_bits_step(start, k as nat);
            }
            crc = if crc & 0x80 != 0 {
                (crc << 1) ^ 0x07
            } else {
                crc << 1
            };
            k = k + 1;
        }
        proof {
            assert(data@.take(i + 1).drop_last() =~= data@.take(i as int));
        }
        i = i + 1;
    }
    proof {
        assert(data@.take(data.len() as int) =~= data@);
    }
    crc
}

/// CRC-16/ARC (poly 0x8005 reflected -> 0xA001, init 0, reflected in/out).
pub fn crc16(data: &[u8]) -> (crc: u16)
    ensures
        crc == crc16_spec(data@),
{
    let mut crc: u16 = 0x0000;
    let mut i: usize = 0;
    while i < data.len()
        invariant
            i <= data.len(),
            crc == crc16_spec(data@.take(i as int)),
        decreases data.len() - i,
    {
        let b = data[i];
        let ghost start = crc ^ (b as u16);
        crc = crc ^ (b as u16);
        let mut k: u8 = 0;
        while k < 8
            invariant
                k <= 8,
                crc == crc16_bits(start, k as nat),
            decreases 8 - k,
        {
            proof {
                lemma_crc16_bits_step(start, k as nat);
            }
            crc = if crc & 1 != 0 {
                (crc >> 1) ^ 0xA001
            } else {
                crc >> 1
            };
            k = k + 1;
        }
        proof {
            assert(data@.take(i + 1).drop_last() =~= data@.take(i as int));
        }
        i = i + 1;
    }
    proof {
        assert(data@.take(data.len() as int) =~= data@);
    }
    crc
}

proof fn lemma_crc8_bits_step(c: u8, n: nat)
    ensures
        crc8_bits(c, n + 1) == crc8_bit(crc8_bits(c, n)),
    decreases n,
{
    assert(crc8_bits(c, n + 1) == crc8_bits(crc8_bit(c), n));
    if n > 0 {
        lemma_crc8_bits_step(crc8_bit(c), (n - 1) as nat);
        assert(crc8_bits(c, n) == crc8_bits(crc8_bit(c), (n - 1) as nat));
    } else {
        assert(crc8_bits(crc8_bit(c), 0) == crc8_bit(c));
    }
}

proof fn lemma_crc16_bits_step(c: u16, n: nat)
    ensures
        crc16_bits(c, n + 1) == crc16_bit(crc16_bits(c, n)),
    decreases n,
{
    assert(crc16_bits(c, n + 1) == crc16_bits(crc16_bit(c), n));
    if n > 0 {
        lemma_crc16_bits_step(crc16_bit(c), (n - 1) as nat);
        assert(crc16_bits(c, n) == crc16_bits(crc16_bit(c), (n - 1) as nat));
    } else {
        assert(crc16_bits(crc16_bit(c), 0) == crc16_bit(c));
    }
}

/// The bytewise exclusive or of two sequences of equal length.
pub open spec fn xor_seq(a: Seq<u8>, b: Seq<u8>) -> Seq<u8> {
    Seq::new(a.len(), |i: int| a[i] ^ b[i])
}

proof fn lemma_crc16_bits_linear(x: u16, y: u16, n: nat)
    ensures
        crc16_bits(x ^ y, n) == crc16_bits(x, n) ^ crc16_bits(y, n),
    decreases n,
{
    if n > 0 {
        assert(crc16_bit(x ^ y) == crc16_bit(x) ^ crc16_bit(y)) by (bit_vector);
        lemma_crc16_bits_linear(crc16_bit(x), crc16_bit(y), (n - 1) as nat);
    }
}

proof fn lemma_crc16_byte_linear(c1: u16, b1: u8, c2: u16, b2: u8)
    ensures
        crc16_byte(c1 ^ c2, b1 ^ b2) == crc16_byte(c1, b1) ^ crc16_byte(c2, b2),
{
    assert((c1 ^ c2) ^ ((b1 ^ b2) as u16) == (c1 ^ (b1 as u16)) ^ (c2 ^ (b2 as u16))) by (bit_vector);
    lemma_crc16_bits_linear(c1 ^ (b1 as u16), c2 ^ (b2 as u16), 8);
}

/// CRC-16 of nothing is zero (the register starts at zero and has no final XOR).
pub proof fn lemma_crc16_empty()
    ensures
        crc16_spec(Seq::<u8>::empty()) == 0,
{
}

/// CRC-16 is linear over GF(2): the checksum of the bytewise XOR of two messages of
/// equal length is the XOR of their checksums.
pub proof fn lemma_crc16_xor(a: Seq<u8>, b: Seq<u8>)
    requires
        a.len() == b.len(),
    ensures
        crc16_spec(xor_seq(a, b)) == crc16_spec(a) ^ crc16_spec(b),
    decreases a.len(),
{
    let x = xor_seq(a, b);
    if a.len() == 0 {
        assert(0u16 ^ 0u16 == 0u16) by (bit_vector);
    } else {
        assert(x.drop_last() =~= xor_seq(a.drop_last(), b.drop_last()));
        lemma_crc16_xor(a.drop_last(), b.drop_last());
        lemma_crc16_byte_linear(crc16_spec(a.drop_last()), a.last(), crc16_spec(b.drop_last()), b.last());
    }
}

/// Appending a message's CRC-16, low byte first, gives a checksum of zero: the residue
/// a receiver checks for.
pub proof fn lemma_crc16_residue(d: Seq<u8>)
    ensures
        crc16_spec(d + u16_le(crc16_spec(d))) == 0,
{
    let c = crc16_spec(d);
    let lo = (c & 0xff) as u8;
    let hi = (c >> 8u16) as u8;
    let e = d + u16_le(c);
    assert(e.drop_last().drop_last() =~= d);
    assert(e.drop_last().last() == lo);
    assert(e.last() == hi);
    reveal_with_fuel(crc16_bits, 9);
    let x = c ^ (lo as u16);
    assert(crc16_bit(crc16_bit(crc16_bit(crc16_bit(crc16_bit(crc16_bit(crc16_bit(crc16_bit(x))))))))
        == (hi as u16)) by (bit_vector)
        requires
            lo == (c & 0xff) as u8,
            hi == (c >> 8u16) as u8,
            x == c ^ (lo as u16),
    ;
    assert(crc16_byte(c, lo) == hi as u16);
    let z = (hi as u16) ^ (hi as u16);
    assert(crc16_bit(crc16_bit(crc16_bit(crc16_bit(crc16_bit(crc16_bit(crc16_bit(crc16_bit(z))))))))
        == 0) by (bit_vector)
        requires
            z == (hi as u16) ^ (hi as u16),
    ;
    assert(crc16_byte(hi as u16, hi) == 0);
    assert(crc16_spec(e.drop_last()) == crc16_byte(crc16_spec(d), lo));
    assert(crc16_spec(e) == crc16_byte(crc16_spec(e.drop_last()), hi));
}

} // verus!

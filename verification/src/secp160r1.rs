//! SECP160r1 (SEC 2) elliptic-curve arithmetic + ECDH, for the encrypted handshake.
//!
//! Affine short-Weierstrass arithmetic over the prime field; the big-integer operations
//! are those of `num-bigint`, on big-endian byte strings. Not constant time.
//!
//! Wire encodings:
//!   * public key  = X(20 bytes BE) || Y(20 bytes BE)          = 40 bytes
//!   * ECDH secret = X of (d * peerPub), 20 bytes BE
use vstd::prelude::*;
use vstd::arithmetic::div_mod::{
    lemma_add_mod_noop, lemma_mod_pos_bound,
    lemma_mod_twice, lemma_mul_mod_noop_general, lemma_mul_mod_noop_left, lemma_mul_mod_noop_right,
    lemma_small_mod,
    lemma_sub_mod_noop, lemma_sub_mod_noop_right,
};
use vstd::arithmetic::power::{lemma_pow1, lemma_pow_adds, pow};

use num_bigint::BigUint;

verus! {

/// Number of bytes of a field element on the wire.
pub const FIELD_BYTES: usize = 20;

/// The value of big-endian bytes.
pub open spec fn be_value(s: Seq<u8>) -> nat
    decreases s.len(),
{
    if s.len() == 0 {
        0
    } else {
        be_value(s.drop_last()) * 256 + s.last() as nat
    }
}

/// The field prime p of secp160r1.
pub open spec fn curve_p() -> int {
    0xffffffffffffffffffffffffffffffff7fffffffint
}

/// The curve coefficient a of secp160r1.
pub open spec fn curve_a() -> int {
    0xffffffffffffffffffffffffffffffff7ffffffcint
}

/// The curve coefficient b of secp160r1.
pub open spec fn curve_b() -> int {
    0x1c97befc54bd7a8b65acf89f81d4d4adc565fa45int
}

/// The group order n of secp160r1.
pub open spec fn curve_n() -> int {
    0x0100000000000000000001f4c8f927aed3ca752257int
}

/// The generator's x coordinate.
pub open spec fn curve_gx() -> int {
    0x4a96b5688ef573284664698968c38bb913cbfc82int
}

/// The generator's y coordinate.
pub open spec fn curve_gy() -> int {
    0x23a628553168947d59dcc912042351377ac5fb32int
}

/// `(a + b)` with `num-bigint`.
///
/// Trusted: the result's value is the sum.
#[verifier::external_body]
fn big_add(a: &[u8], b: &[u8]) -> (r: Vec<u8>)
    ensures
        be_value(r@) == be_value(a@) + be_value(b@),
{
    (BigUint::from_bytes_be(a) + BigUint::from_bytes_be(b)).to_bytes_be()
}

/// `(a - b)` with `num-bigint` (which panics below zero, hence the requirement).
///
/// Trusted: the result's value is the difference.
#[verifier::external_body]
fn big_sub(a: &[u8], b: &[u8]) -> (r: Vec<u8>)
    requires
        be_value(a@) >= be_value(b@),
    ensures
        be_value(r@) == be_value(a@) - be_value(b@),
{
    (BigUint::from_bytes_be(a) - BigUint::from_bytes_be(b)).to_bytes_be()
}

/// `(a * b)` with `num-bigint`.
///
/// Trusted: the result's value is the product.
#[verifier::external_body]
fn big_mul(a: &[u8], b: &[u8]) -> (r: Vec<u8>)
    ensures
        be_value(r@) == be_value(a@) * be_value(b@),
{
    (BigUint::from_bytes_be(a) * BigUint::from_bytes_be(b)).to_bytes_be()
}

/// `(a % m)` with `num-bigint` (which panics on a zero modulus).
///
/// Trusted: the result's value is the remainder.
#[verifier::external_body]
fn big_rem(a: &[u8], m: &[u8]) -> (r: Vec<u8>)
    requires
        be_value(m@) > 0,
    ensures
        be_value(r@) == be_value(a@) % be_value(m@),
{
    (BigUint::from_bytes_be(a) % BigUint::from_bytes_be(m)).to_bytes_be()
}

/// `BigUint::modpow` (which panics on a zero modulus).
///
/// Trusted: the result's value is `base^exponent mod modulus`, as documented.
#[verifier::external_body]
fn big_modpow(base: &[u8], exponent: &[u8], modulus: &[u8]) -> (r: Vec<u8>)
    requires
        be_value(modulus@) > 0,
    ensures
        be_value(r@) == pow(be_value(base@) as int, be_value(exponent@)) % (be_value(modulus@) as int),
{
    BigUint::from_bytes_be(base).modpow(&BigUint::from_bytes_be(exponent), &BigUint::from_bytes_be(modulus)).to_bytes_be()
}

/// `a == b` on the values, with `num-bigint`.
///
/// Trusted: the result says whether the values are equal.
#[verifier::external_body]
fn big_eq(a: &[u8], b: &[u8]) -> (r: bool)
    ensures
        r == (be_value(a@) == be_value(b@)),
{
    BigUint::from_bytes_be(a) == BigUint::from_bytes_be(b)
}

/// A point of the curve group: the point at infinity or affine coordinates.
pub enum Point {
    Infinity,
    Affine(Vec<u8>, Vec<u8>),
}

/// The mathematical value of a point.
pub enum PointV {
    Infinity,
    Affine(int, int),
}

impl View for Point {
    type V = PointV;

    open spec fn view(&self) -> PointV {
        match self {
            Point::Infinity => PointV::Infinity,
            Point::Affine(x, y) => PointV::Affine(be_value(x@) as int, be_value(y@) as int),
        }
    }
}

/// Reduction modulo p (Euclidean, so always in `[0, p)`).
pub open spec fn modp(x: int) -> int {
    x % curve_p()
}

/// The inverse modulo p by Fermat's little theorem: `a^(p-2) mod p`.
pub open spec fn mod_inv_spec(a: int) -> int {
    pow(modp(a), (curve_p() - 2) as nat) % curve_p()
}

/// Affine point addition (and doubling) on the curve, as the field formulas compute it.
pub open spec fn point_add_spec(p1: PointV, p2: PointV) -> PointV {
    match (p1, p2) {
        (PointV::Infinity, q) => q,
        (q, PointV::Infinity) => q,
        (PointV::Affine(x1, y1), PointV::Affine(x2, y2)) => {
            if x1 == x2 && modp(y1 + y2) == 0 {
                PointV::Infinity
            } else {
                let lambda = if x1 == x2 && y1 == y2 {
                    modp(modp(3 * x1 * x1 + curve_a()) * mod_inv_spec(2 * y1))
                } else {
                    modp(modp(y2 - y1) * mod_inv_spec(modp(x2 - x1)))
                };
                let x3 = modp(lambda * lambda - x1 - x2);
                let y3 = modp(lambda * (x1 - x3) - y1);
                PointV::Affine(x3, y3)
            }
        },
    }
}

/// Double-and-add from the least significant bit: `result + k * addend`, as the loop
/// computes it.
pub open spec fn scalar_mul_loop(result: PointV, addend: PointV, k: nat) -> PointV
    decreases k,
{
    if k == 0 {
        result
    } else {
        let r = if k % 2 == 1 {
            point_add_spec(result, addend)
        } else {
            result
        };
        scalar_mul_loop(r, point_add_spec(addend, addend), k / 2)
    }
}

/// `k * pt`.
pub open spec fn scalar_mul_spec(k: nat, pt: PointV) -> PointV {
    scalar_mul_loop(PointV::Infinity, pt, k)
}

/// The curve parameters as big-endian bytes, with `p - 2`.
struct Params {
    p: Vec<u8>,
    a: Vec<u8>,
    n: Vec<u8>,
    gx: Vec<u8>,
    gy: Vec<u8>,
    pm2: Vec<u8>,
}

impl Params {
    spec fn wf(&self) -> bool {
        &&& be_value(self.p@) == curve_p()
        &&& be_value(self.a@) == curve_a()
        &&& be_value(self.n@) == curve_n()
        &&& be_value(self.gx@) == curve_gx()
        &&& be_value(self.gy@) == curve_gy()
        &&& be_value(self.pm2@) == curve_p() - 2
    }
}

fn params() -> (prm: Params)
    ensures
        prm.wf(),
{
    let p: Vec<u8> = vec![
        0xff, 0xff, 0xff, 0xff, 0xff, 0xff, 0xff, 0xff, 0xff, 0xff, 0xff, 0xff, 0xff, 0xff,
        0xff, 0xff, 0x7f, 0xff, 0xff, 0xff,
    ];
    let a: Vec<u8> = vec![
        0xff, 0xff, 0xff, 0xff, 0xff, 0xff, 0xff, 0xff, 0xff, 0xff, 0xff, 0xff, 0xff, 0xff,
        0xff, 0xff, 0x7f, 0xff, 0xff, 0xfc,
    ];
    let n: Vec<u8> = vec![
        0x01, 0x00, 0x00, 0x00, 0x00, 0x00, 0x00, 0x00, 0x00, 0x00, 0x01, 0xf4, 0xc8, 0xf9,
        0x27, 0xae, 0xd3, 0xca, 0x75, 0x22, 0x57,
    ];
    let gx: Vec<u8> = vec![
        0x4a, 0x96, 0xb5, 0x68, 0x8e, 0xf5, 0x73, 0x28, 0x46, 0x64, 0x69, 0x89, 0x68, 0xc3,
        0x8b, 0xb9, 0x13, 0xcb, 0xfc, 0x82,
    ];
    let gy: Vec<u8> = vec![
        0x23, 0xa6, 0x28, 0x55, 0x31, 0x68, 0x94, 0x7d, 0x59, 0xdc, 0xc9, 0x12, 0x04, 0x23,
        0x51, 0x37, 0x7a, 0xc5, 0xfb, 0x32,
    ];
    let two: Vec<u8> = vec![2];
    proof {
        reveal_with_fuel(be_value, 22);
        assert(be_value(two@) == 2);
        assert(be_value(p@) == curve_p());
        assert(be_value(a@) == curve_a());
        assert(be_value(n@) == curve_n());
        assert(be_value(gx@) == curve_gx());
        assert(be_value(gy@) == curve_gy());
    }
    let pm2 = big_sub(p.as_slice(), two.as_slice());
    Params { p, a, n, gx, gy, pm2 }
}

/// `((x mod m) - y) mod m == (x - y) mod m`.
proof fn lemma_mod_sub_left(x: int, y: int, m: int)
    requires
        m > 0,
    ensures
        ((x % m) - y) % m == (x - y) % m,
{
    lemma_sub_mod_noop(x, y, m);
    lemma_sub_mod_noop_right(x % m, y, m);
}

fn mod_p(a: &[u8], prm: &Params) -> (r: Vec<u8>)
    requires
        prm.wf(),
    ensures
        be_value(r@) == modp(be_value(a@) as int),
{
    big_rem(a, prm.p.as_slice())
}

/// `(u - v) mod p`, computed without negative intermediates as `(u + (p - v mod p)) mod p`.
fn sub_mod(u: &[u8], v: &[u8], prm: &Params) -> (r: Vec<u8>)
    requires
        prm.wf(),
    ensures
        be_value(r@) == modp(be_value(u@) - be_value(v@)),
{
    let t = big_rem(v, prm.p.as_slice());
    proof {
        lemma_mod_pos_bound(be_value(v@) as int, curve_p());
    }
    let q = big_sub(prm.p.as_slice(), t.as_slice());
    let s = big_add(u, q.as_slice());
    let r = big_rem(s.as_slice(), prm.p.as_slice());
    proof {
        let uu = be_value(u@) as int;
        let vv = be_value(v@) as int;
        let p = curve_p();
        let w = vv % p;
        assert(be_value(s@) == uu - w + p);
        lemma_add_mod_noop(uu - w, p, p);
        assert(p % p == 0) by {
            lemma_mod_twice(0, p);
            assert(p % p == 0) by (nonlinear_arith)
                requires
                    p > 0,
            ;
        }
        lemma_mod_twice(uu - w, p);
        assert((uu - w + p) % p == (uu - w) % p);
        lemma_sub_mod_noop_right(uu, vv, p);
    }
    r
}

fn mul_mod(a: &[u8], b: &[u8], prm: &Params) -> (r: Vec<u8>)
    requires
        prm.wf(),
    ensures
        be_value(r@) == modp((be_value(a@) * be_value(b@)) as int),
{
    let m = big_mul(a, b);
    big_rem(m.as_slice(), prm.p.as_slice())
}

/// The inverse modulo p: `(a mod p)^(p-2) mod p`.
fn mod_inv(a: &[u8], prm: &Params) -> (r: Vec<u8>)
    requires
        prm.wf(),
    ensures
        be_value(r@) == mod_inv_spec(be_value(a@) as int),
{
    let base = big_rem(a, prm.p.as_slice());
    big_modpow(base.as_slice(), prm.pm2.as_slice(), prm.p.as_slice())
}

fn clone_point(q: &Point) -> (r: Point)
    ensures
        r@ == q@,
{
    match q {
        Point::Infinity => Point::Infinity,
        Point::Affine(x, y) => Point::Affine(
            vstd::slice::slice_to_vec(x.as_slice()),
            vstd::slice::slice_to_vec(y.as_slice()),
        ),
    }
}

fn point_add(pt1: &Point, pt2: &Point, prm: &Params) -> (r: Point)
    requires
        prm.wf(),
    ensures
        r@ == point_add_spec(pt1@, pt2@),
{
    match (pt1, pt2) {
        (Point::Infinity, q) => clone_point(q),
        (q, Point::Infinity) => clone_point(q),
        (Point::Affine(x1, y1), Point::Affine(x2, y2)) => {
            let ghost xx1 = be_value(x1@) as int;
            let ghost yy1 = be_value(y1@) as int;
            let ghost xx2 = be_value(x2@) as int;
            let ghost yy2 = be_value(y2@) as int;
            let xeq = big_eq(x1.as_slice(), x2.as_slice());
            let ysum = big_add(y1.as_slice(), y2.as_slice());
            let ysum_mod = mod_p(ysum.as_slice(), prm);
            let zero: Vec<u8> = Vec::new();
            if xeq && big_eq(ysum_mod.as_slice(), zero.as_slice()) {
                return Point::Infinity;
            }
            let lambda = if xeq && big_eq(y1.as_slice(), y2.as_slice()) {
                let three: Vec<u8> = vec![3];
                let two: Vec<u8> = vec![2];
                proof {
                    reveal_with_fuel(be_value, 2);
                }
                let sq = big_mul(x1.as_slice(), x1.as_slice());
                let t = big_mul(three.as_slice(), sq.as_slice());
                let t2 = big_add(t.as_slice(), prm.a.as_slice());
                let num = mod_p(t2.as_slice(), prm);
                let d = big_mul(two.as_slice(), y1.as_slice());
                let den = mod_inv(d.as_slice(), prm);
                proof {
                    assert(3 * (xx1 * xx1) == 3 * xx1 * xx1) by (nonlinear_arith);
                }
                mul_mod(num.as_slice(), den.as_slice(), prm)
            } else {
                let num = sub_mod(y2.as_slice(), y1.as_slice(), prm);
                let dx = sub_mod(x2.as_slice(), x1.as_slice(), prm);
                let den = mod_inv(dx.as_slice(), prm);
                mul_mod(num.as_slice(), den.as_slice(), prm)
            };
            let ghost l = be_value(lambda@) as int;
            let l2 = big_mul(lambda.as_slice(), lambda.as_slice());
            let t = sub_mod(l2.as_slice(), x1.as_slice(), prm);
            let x3 = sub_mod(t.as_slice(), x2.as_slice(), prm);
            proof {
                lemma_mod_sub_left(l * l - xx1, xx2, curve_p());
            }
            let ghost xx3 = be_value(x3@) as int;
            let dx3 = sub_mod(x1.as_slice(), x3.as_slice(), prm);
            let m = big_mul(lambda.as_slice(), dx3.as_slice());
            let y3 = sub_mod(m.as_slice(), y1.as_slice(), prm);
            proof {
                let p = curve_p();
                lemma_mul_mod_noop_right(l, xx1 - xx3, p);
                lemma_mod_sub_left(l * ((xx1 - xx3) % p), yy1, p);
                lemma_mod_sub_left(l * (xx1 - xx3), yy1, p);
            }
            Point::Affine(x3, y3)
        },
    }
}

/// `2^e`.
pub open spec fn two_pow(e: nat) -> nat
    decreases e,
{
    if e == 0 {
        1
    } else {
        2 * two_pow((e - 1) as nat)
    }
}

/// Peeling the lowest bit off `X * 2^(8-t) + (b >> t)`.
proof fn lemma_bit_step(x: nat, b: u8, t: u8)
    requires
        t < 8,
    ensures
        ((x * two_pow((8 - t) as nat) + (b >> t) as nat) as int) % 2 == ((b >> t) & 1) as int,
        ((x * two_pow((8 - t) as nat) + (b >> t) as nat) as int) / 2 == (x * two_pow((7 - t) as nat) + (b >> (
        (t + 1) as u8)) as nat) as int,
{
    let t1 = (t + 1) as u8;
    assert((b >> t) as int == 2 * ((b >> t1) as int) + ((b >> t) & 1) as int && ((b >> t) & 1) < 2) by (bit_vector)
        requires
            t < 8,
            t1 == t + 1,
    ;
    assert(two_pow((8 - t) as nat) == 2 * two_pow((7 - t) as nat));
    let q = x * two_pow((7 - t) as nat) + (b >> t1) as nat;
    let bit = ((b >> t) & 1) as int;
    assert(x * two_pow((8 - t) as nat) == 2 * (x * two_pow((7 - t) as nat))) by (nonlinear_arith)
        requires
            two_pow((8 - t) as nat) == 2 * two_pow((7 - t) as nat),
    ;
    assert(((2 * q + bit) as int) % 2 == bit && ((2 * q + bit) as int) / 2 == q) by (nonlinear_arith)
        requires
            0 <= bit < 2,
            q >= 0,
    ;
}

/// Absorb the eight bits of one scalar byte, least significant first.
fn absorb_byte(result: Point, addend: Point, byte: u8, prm: &Params, Ghost(x): Ghost<nat>) -> (r: (Point, Point))
    requires
        prm.wf(),
    ensures
        scalar_mul_loop(r.0@, r.1@, x) == scalar_mul_loop(result@, addend@, x * 256 + byte as nat),
{
    let ghost target = scalar_mul_loop(result@, addend@, x * 256 + byte as nat);
    proof {
        assert(two_pow(8) == 256) by {
            reveal_with_fuel(two_pow, 9);
        }
        assert((byte >> 0u8) == byte) by (bit_vector);
        assert(x * two_pow(8) + (byte >> 0u8) as nat == x * 256 + byte as nat);
    }
    let mut result = result;
    let mut addend = addend;
    let mut t: u8 = 0;
    while t < 8
        invariant
            prm.wf(),
            t <= 8,
            scalar_mul_loop(result@, addend@, x * two_pow((8 - t) as nat) + (byte >> t) as nat) == target,
        decreases 8 - t,
    {
        let ghost rem = x * two_pow((8 - t) as nat) + (byte >> t) as nat;
        let ghost r0 = result@;
        let ghost a0 = addend@;
        proof {
            lemma_bit_step(x, byte, t);
        }
        if (byte >> t) & 1 == 1 {
            result = point_add(&result, &addend, prm);
        }
        addend = point_add(&addend, &addend, prm);
        proof {
            let next = x * two_pow((7 - t) as nat) + (byte >> ((t + 1) as u8)) as nat;
            assert(rem / 2 == next);
            if rem == 0 {
                assert(result@ == r0);
                assert(next == 0);
            } else {
                assert(scalar_mul_loop(r0, a0, rem) == scalar_mul_loop(result@, addend@, (rem / 2) as nat));
            }
        }
        t = t + 1;
    }
    proof {
        assert((byte >> 8u8) == 0) by (bit_vector);
        assert(two_pow(0) == 1);
        assert(x * two_pow(0) == x);
        assert(x * two_pow((8 - t) as nat) + (byte >> t) as nat == x);
    }
    (result, addend)
}

/// `k * pt` by double-and-add over the bits of `k` (big-endian bytes), least significant
/// bit first.
fn scalar_mul(k: &[u8], pt: &Point, prm: &Params) -> (r: Point)
    requires
        prm.wf(),
    ensures
        r@ == scalar_mul_spec(be_value(k@), pt@),
{
    let ghost target = scalar_mul_spec(be_value(k@), pt@);
    let mut result = Point::Infinity;
    let mut addend = clone_point(pt);
    let mut j: usize = k.len();
    proof {
        assert(k@.take(k@.len() as int) =~= k@);
    }
    while j > 0
        invariant
            prm.wf(),
            j <= k.len(),
            scalar_mul_loop(result@, addend@, be_value(k@.take(j as int))) == target,
        decreases j,
    {
        let byte = k[j - 1];
        proof {
            assert(k@.take(j as int).drop_last() =~= k@.take(j - 1));
        }
        let (r, a) = absorb_byte(result, addend, byte, prm, Ghost(be_value(k@.take(j - 1))));
        result = r;
        addend = a;
        j = j - 1;
    }
    proof {
        assert(k@.take(0) =~= Seq::<u8>::empty());
    }
    result
}

/// `256^n`.
pub open spec fn pow256(n: nat) -> nat
    decreases n,
{
    if n == 0 {
        1
    } else {
        256 * pow256((n - 1) as nat)
    }
}

proof fn lemma_be_value_concat(a: Seq<u8>, b: Seq<u8>)
    ensures
        be_value(a + b) == be_value(a) * pow256(b.len()) + be_value(b),
    decreases b.len(),
{
    if b.len() == 0 {
        assert(a + b =~= a);
        assert(pow256(0) == 1);
        assert(be_value(b) == 0);
        assert(be_value(a) * 1 == be_value(a));
    } else {
        lemma_be_value_concat(a, b.drop_last());
        assert((a + b).drop_last() =~= a + b.drop_last());
        assert((a + b).last() == b.last());
        assert(be_value(a + b) == be_value((a + b).drop_last()) * 256 + b.last());
        assert(pow256(b.len()) == 256 * pow256((b.len() - 1) as nat));
        assert(be_value(b) == be_value(b.drop_last()) * 256 + b.last());
        let pa = be_value(a) as int;
        let pb = be_value(b.drop_last()) as int;
        let w = pow256((b.len() - 1) as nat) as int;
        assert((pa * w + pb) * 256 + b.last() == pa * (256 * w) + (pb * 256 + b.last())) by (nonlinear_arith);
        assert(be_value(a + b.drop_last()) == pa * w + pb);
    }
}

proof fn lemma_be_value_bound(b: Seq<u8>)
    ensures
        be_value(b) < pow256(b.len()),
    decreases b.len(),
{
    if b.len() > 0 {
        lemma_be_value_bound(b.drop_last());
        let v = be_value(b.drop_last()) as int;
        let w = pow256((b.len() - 1) as nat) as int;
        assert(v * 256 + b.last() < 256 * w) by (nonlinear_arith)
            requires
                v < w,
                b.last() < 256,
        ;
    }
}

proof fn lemma_be_value_zeros(n: nat)
    ensures
        be_value(Seq::new(n, |i: int| 0u8)) == 0,
    decreases n,
{
    if n > 0 {
        assert(Seq::new(n, |i: int| 0u8).drop_last() =~= Seq::new((n - 1) as nat, |i: int| 0u8));
        lemma_be_value_zeros((n - 1) as nat);
    }
}

/// A value as a 20-byte big-endian field string (the low 20 bytes of a longer value).
pub open spec fn field_bytes_value(v: nat) -> nat {
    v % pow256(20)
}

fn to_field_bytes(v: &[u8]) -> (out: [u8; 20])
    ensures
        be_value(out@) == field_bytes_value(be_value(v@)),
{
    let mut out = [0u8; 20];
    let n = v.len();
    let (src_start, dst_start) = if n > FIELD_BYTES {
        (n - FIELD_BYTES, 0usize)
    } else {
        (0usize, FIELD_BYTES - n)
    };
    let mut i: usize = dst_start;
    while i < FIELD_BYTES
        invariant
            dst_start <= i <= FIELD_BYTES,
            n == v.len(),
            src_start + FIELD_BYTES - dst_start == n,
            src_start == 0 || dst_start == 0,
            forall|j: int| 0 <= j < dst_start ==> out@[j] == 0u8,
            forall|j: int| dst_start <= j < i ==> out@[j] == v@[src_start + j - dst_start],
        decreases FIELD_BYTES - i,
    {
        out[i] = v[src_start + i - dst_start];
        i = i + 1;
    }
    proof {
        let lo = v@.skip(src_start as int);
        let z = Seq::new(dst_start as nat, |i: int| 0u8);
        assert(out@ =~= z + lo);
        lemma_be_value_concat(z, lo);
        lemma_be_value_zeros(dst_start as nat);
        lemma_be_value_bound(lo);
        assert(v@ =~= v@.take(src_start as int) + lo);
        lemma_be_value_concat(v@.take(src_start as int), lo);
        let hi = be_value(v@.take(src_start as int)) as int;
        let m = pow256(lo.len()) as int;
        let w = pow256(20) as int;
        let low = be_value(lo) as int;
        if n > FIELD_BYTES {
            assert(lo.len() == 20);
            assert((hi * m + low) % m == low) by (nonlinear_arith)
                requires
                    0 <= low < m,
                    hi >= 0,
            ;
        } else {
            lemma_be_value_bound(v@);
            assert(pow256(lo.len()) <= pow256(20)) by {
                lemma_pow256_mono(lo.len(), 20);
            }
            assert(low % w == low) by (nonlinear_arith)
                requires
                    0 <= low < w,
            ;
            assert(v@.take(0) =~= Seq::<u8>::empty());
        }
    }
    out
}

proof fn lemma_pow256_mono(a: nat, b: nat)
    requires
        a <= b,
    ensures
        pow256(a) <= pow256(b),
    decreases b,
{
    if a < b {
        lemma_pow256_mono(a, (b - 1) as nat);
        lemma_pow256_pos((b - 1) as nat);
    }
}

proof fn lemma_pow256_pos(a: nat)
    ensures
        pow256(a) >= 1,
    decreases a,
{
    if a > 0 {
        lemma_pow256_pos((a - 1) as nat);
    }
}

/// The generator point.
pub open spec fn generator() -> PointV {
    PointV::Affine(curve_gx(), curve_gy())
}

/// Errors of the ECDH computation.
#[derive(Debug, Clone, Copy, PartialEq, Eq)]
pub enum EcdhError {
    /// The peer public key is shorter than 40 bytes (its length).
    PeerKeyTooShort(usize),
    /// The product is the point at infinity.
    PointAtInfinity,
}

/// An ephemeral secret scalar and its 40-byte public key.
pub struct Ephemeral {
    d: Vec<u8>,
    pub public_key: [u8; 40],
}

/// Whether a 40-byte string encodes the affine point `(x, y)` as two 20-byte field strings.
pub open spec fn encodes_point(key: Seq<u8>, x: int, y: int) -> bool {
    &&& key.len() == 40
    &&& be_value(key.take(20)) == field_bytes_value(x as nat)
    &&& be_value(key.skip(20)) == field_bytes_value(y as nat)
}

impl Ephemeral {
    /// The secret scalar.
    pub closed spec fn secret(&self) -> nat {
        be_value(self.d@)
    }

    /// The public key bytes.
    pub closed spec fn public_key_view(&self) -> Seq<u8> {
        self.public_key@
    }

    /// The public key, as a slice.
    pub fn public_key_bytes(&self) -> (r: &[u8])
        ensures
            r@ == self.public_key_view(),
    {
        self.public_key.as_slice()
    }

    /// The keypair for 21 random bytes: `d = bytes mod n`, public key `d * G`. There is none
    /// when `d` is zero (the caller draws again) or `d * G` is the point at infinity.
    pub fn from_random(buf: &[u8; 21]) -> (r: Option<Ephemeral>)
        ensures
            ({
                let d = (be_value(buf@) as int % curve_n()) as nat;
                match scalar_mul_spec(d, generator()) {
                    PointV::Affine(x, y) => if d != 0 {
                        r is Some && r->0.secret() == d && encodes_point(r->0.public_key_view(), x, y)
                    } else {
                        r is None
                    },
                    PointV::Infinity => r is None,
                }
            }),
    {
        let prm = params();
        let d = big_rem(buf.as_slice(), prm.n.as_slice());
        let zero: Vec<u8> = Vec::new();
        if big_eq(d.as_slice(), zero.as_slice()) {
            proof {
                let dd = (be_value(buf@) as int % curve_n()) as nat;
                assert(dd == 0);
                assert(scalar_mul_spec(0, generator()) == PointV::Infinity);
            }
            return None;
        }
        let g = Point::Affine(
            vstd::slice::slice_to_vec(prm.gx.as_slice()),
            vstd::slice::slice_to_vec(prm.gy.as_slice()),
        );
        let pubp = scalar_mul(d.as_slice(), &g, &prm);
        let (x, y) = match pubp {
            Point::Affine(x, y) => (x, y),
            Point::Infinity => return None,
        };
        let xb = to_field_bytes(x.as_slice());
        let yb = to_field_bytes(y.as_slice());
        let mut public_key = [0u8; 40];
        let mut i: usize = 0;
        while i < 20
            invariant
                i <= 20,
                forall|j: int| 0 <= j < i ==> public_key@[j] == xb@[j] && public_key@[j + 20] == yb@[j],
            decreases 20 - i,
        {
            public_key[i] = xb[i];
            public_key[i + 20] = yb[i];
            i = i + 1;
        }
        proof {
            assert(public_key@.take(20) =~= xb@);
            assert(public_key@.skip(20) =~= yb@);
        }
        Some(Ephemeral { d, public_key })
    }

    /// Compute the ECDH shared secret with a peer's 40-byte public key: the 20-byte
    /// big-endian X coordinate of `d * peerPub`.
    pub fn shared_secret(&self, peer_pub: &[u8]) -> (r: Result<[u8; 20], EcdhError>)
        ensures
            peer_pub@.len() < 40 ==> r == Err::<[u8; 20], EcdhError>(EcdhError::PeerKeyTooShort(peer_pub@.len() as usize)),
            peer_pub@.len() >= 40 ==> match scalar_mul_spec(
                self.secret(),
                PointV::Affine(
                    be_value(peer_pub@.subrange(0, 20)) as int,
                    be_value(peer_pub@.subrange(20, 40)) as int,
                ),
            ) {
                PointV::Affine(x, _) => r is Ok && be_value(r->Ok_0@) == field_bytes_value(x as nat),
                PointV::Infinity => r == Err::<[u8; 20], EcdhError>(EcdhError::PointAtInfinity),
            },
    {
        if peer_pub.len() < 40 {
            return Err(EcdhError::PeerKeyTooShort(peer_pub.len()));
        }
        let prm = params();
        let px = vstd::slice::slice_to_vec(&peer_pub[0..20]);
        let py = vstd::slice::slice_to_vec(&peer_pub[20..40]);
        let peer = Point::Affine(px, py);
        let shared = scalar_mul(self.d.as_slice(), &peer, &prm);
        match shared {
            Point::Affine(x, _) => Ok(to_field_bytes(x.as_slice())),
            Point::Infinity => Err(EcdhError::PointAtInfinity),
        }
    }
}

/// Whether an affine point satisfies `y^2 = x^3 + a*x + b (mod p)`.
pub open spec fn on_curve(x: int, y: int) -> bool {
    (y * y) % curve_p() == (x * x * x + curve_a() * x + curve_b()) % curve_p()
}

/// The generator lies on the curve.
pub proof fn lemma_generator_on_curve()
    ensures
        on_curve(curve_gx(), curve_gy()),
{
}

/// Fermat's little theorem at `a` for the prime p: `a^(p-1) = 1 (mod p)`. It holds for
/// every `a` not divisible by p; it is what makes `mod_inv_spec(a)` the inverse of `a`.
pub open spec fn fermat_holds(a: int) -> bool {
    pow(modp(a), (curve_p() - 1) as nat) % curve_p() == 1
}

proof fn lemma_inverse(a: int)
    requires
        fermat_holds(a),
    ensures
        modp(mod_inv_spec(a) * a) == 1,
{
    let pp = curve_p();
    let m = modp(a);
    let e = (pp - 2) as nat;
    lemma_pow_adds(m, e, 1);
    lemma_pow1(m);
    assert(e + 1 == (pp - 1) as nat);
    lemma_mul_mod_noop_left(pow(m, e), a, pp);
    lemma_mul_mod_noop_right(pow(m, e), a, pp);
}

proof fn cong_mul(a: int, b: int, c: int, d: int)
    requires
        modp(a) == modp(c),
        modp(b) == modp(d),
    ensures
        modp(a * b) == modp(c * d),
{
    lemma_mul_mod_noop_general(a, b, curve_p());
    lemma_mul_mod_noop_general(c, d, curve_p());
}

proof fn cong_add(a: int, b: int, c: int, d: int)
    requires
        modp(a) == modp(c),
        modp(b) == modp(d),
    ensures
        modp(a + b) == modp(c + d),
{
    lemma_add_mod_noop(a, b, curve_p());
    lemma_add_mod_noop(c, d, curve_p());
}

proof fn cong_sub(a: int, b: int, c: int, d: int)
    requires
        modp(a) == modp(c),
        modp(b) == modp(d),
    ensures
        modp(a - b) == modp(c - d),
{
    lemma_sub_mod_noop(a, b, curve_p());
    lemma_sub_mod_noop(c, d, curve_p());
}

proof fn cong_reduce(a: int)
    ensures
        modp(modp(a)) == modp(a),
{
    lemma_mod_twice(a, curve_p());
}

/// The curve equation's value `x^3 + a*x + b` at `x`.
pub open spec fn curve_rhs(x: int) -> int {
    x * x * x + curve_a() * x + curve_b()
}

/// From `y1^2 = rhs(x1)` modulo p at the integer point `(xx, yy)` to the reduced point.
proof fn lemma_on_curve_reduced(l: int, x1: int, y1: int, xx: int, yy: int)
    requires
        yy == l * (x1 - xx) - y1,
        modp(curve_rhs(xx) - yy * yy) == 0,
    ensures
        on_curve(modp(xx), modp(l * (x1 - modp(xx)) - y1)),
{
    let x3 = modp(xx);
    let y3 = modp(l * (x1 - x3) - y1);
    cong_reduce(xx);
    cong_sub(x1, x3, x1, xx);
    cong_mul(l, x1 - x3, l, x1 - xx);
    cong_sub(l * (x1 - x3), y1, l * (x1 - xx), y1);
    cong_reduce(l * (x1 - x3) - y1);
    assert(modp(y3) == modp(yy));
    cong_mul(y3, y3, yy, yy);
    cong_mul(x3, x3, xx, xx);
    cong_mul(x3 * x3, x3, xx * xx, xx);
    cong_mul(curve_a(), x3, curve_a(), xx);
    cong_add(x3 * x3 * x3, curve_a() * x3, xx * xx * xx, curve_a() * xx);
    cong_add(x3 * x3 * x3 + curve_a() * x3, curve_b(), xx * xx * xx + curve_a() * xx, curve_b());
    // rhs(xx) = (rhs(xx) - yy*yy) + yy*yy
    lemma_add_mod_noop(curve_rhs(xx) - yy * yy, yy * yy, curve_p());
    cong_reduce(yy * yy);
    assert(curve_rhs(xx) - yy * yy + yy * yy == curve_rhs(xx));
}

/// The tangent identity, in steps small enough for the solver: with `t = xx - x` and
/// `xx = l^2 - 2x`, `rhs(xx) - yy^2 = (rhs(x) - y^2) + t*((3x^2 + a) - l*2y)`.
proof fn lemma_double_identity(l: int, x: int, y: int, xx: int, yy: int)
    requires
        xx == l * l - x - x,
        yy == l * (x - xx) - y,
    ensures
        curve_rhs(xx) - yy * yy == (curve_rhs(x) - y * y) + (xx - x) * ((3 * x * x + curve_a()) - l * (
        2 * y)),
{
    let a = curve_a();
    let t = xx - x;
    assert(l * (x - xx) == -(l * t)) by (nonlinear_arith)
        requires
            t == xx - x,
    ;
    assert(xx * xx * xx == x * x * x + 3 * (x * x * t) + 3 * (x * t * t) + t * t * t) by (nonlinear_arith)
        requires
            xx == x + t,
    ;
    assert(yy * yy == (l * t) * (l * t) + 2 * ((l * t) * y) + y * y) by (nonlinear_arith)
        requires
            yy == -(l * t) - y,
    ;
    assert(t * t * t + 3 * (x * t * t) - (l * t) * (l * t) == 0) by (nonlinear_arith)
        requires
            t == l * l - x - x - x,
    ;
    assert(a * xx == a * x + a * t) by (nonlinear_arith)
        requires
            xx == x + t,
    ;
    assert(3 * (x * x * t) + a * t - 2 * ((l * t) * y) == t * ((3 * x * x + a) - l * (2 * y))) by (
    nonlinear_arith);
}

/// The slope of the tangent at `(x, y)` solves `l * 2y = 3x^2 + a` modulo p.
proof fn lemma_tangent_slope(x: int, y: int)
    requires
        fermat_holds(2 * y),
    ensures
        modp(modp(modp(3 * x * x + curve_a()) * mod_inv_spec(2 * y)) * (2 * y)) == modp(3 * x * x
            + curve_a()),
{
    let n = modp(3 * x * x + curve_a());
    let i = mod_inv_spec(2 * y);
    let l = modp(n * i);
    lemma_inverse(2 * y);
    cong_reduce(n * i);
    cong_mul(l, 2 * y, n * i, 2 * y);
    assert((n * i) * (2 * y) == n * (i * (2 * y))) by (nonlinear_arith);
    assert(modp(1) == 1);
    cong_mul(n, i * (2 * y), n, 1);
    cong_reduce(3 * x * x + curve_a());
}

/// Doubling keeps a point on the curve: if `(x, y)` satisfies `y^2 = x^3 + a*x + b`
/// (mod p), so does `2 * (x, y)`, unless it is the point at infinity. The slope divides
/// by `2y` through `mod_inv_spec`, which inverts modulo p where Fermat's little theorem
/// holds (for every `2y` not divisible by p, p being prime).
pub proof fn lemma_double_on_curve(x: int, y: int)
    requires
        on_curve(x, y),
        fermat_holds(2 * y),
    ensures
        match point_add_spec(PointV::Affine(x, y), PointV::Affine(x, y)) {
            PointV::Affine(x3, y3) => on_curve(x3, y3),
            PointV::Infinity => true,
        },
{
    if !(modp(y + y) == 0) {
        let a = curve_a();
        let l = modp(modp(3 * x * x + a) * mod_inv_spec(2 * y));
        let xx = l * l - x - x;
        let yy = l * (x - xx) - y;
        lemma_tangent_slope(x, y);
        lemma_double_identity(l, x, y, xx, yy);
        // rhs(x) - y^2 = 0 and (3x^2 + a) - l*2y = 0 modulo p
        lemma_sub_mod_noop(curve_rhs(x), y * y, curve_p());
        assert(modp(curve_rhs(x) - y * y) == 0);
        lemma_sub_mod_noop(3 * x * x + a, l * (2 * y), curve_p());
        let g = (3 * x * x + a) - l * (2 * y);
        assert(modp(g) == 0);
        assert(modp(0) == 0);
        cong_mul(xx - x, g, xx - x, 0);
        cong_add(curve_rhs(x) - y * y, (xx - x) * g, 0, 0);
        assert(modp(curve_rhs(xx) - yy * yy) == 0);
        lemma_on_curve_reduced(l, x, y, xx, yy);
    }
}

/// The chord identity, in small steps: with `d = x2 - x1`, `t = xx - x1`, `xx = l^2 - x1 - x2`
/// and `k = 3 x1^2 + a`, `rhs(xx) - yy^2 = (rhs(x1) - y1^2) + t*(k - l*2y1) - d*t^2`.
proof fn lemma_chord_identity(l: int, x1: int, y1: int, x2: int, xx: int, yy: int)
    requires
        xx == l * l - x1 - x2,
        yy == l * (x1 - xx) - y1,
    ensures
        curve_rhs(xx) - yy * yy == (curve_rhs(x1) - y1 * y1) + (xx - x1) * ((3 * x1 * x1 + curve_a())
            - l * (2 * y1)) - (x2 - x1) * ((xx - x1) * (xx - x1)),
{
    let a = curve_a();
    let t = xx - x1;
    let d = x2 - x1;
    assert(l * (x1 - xx) == -(l * t)) by (nonlinear_arith)
        requires
            t == xx - x1,
    ;
    assert(xx * xx * xx == x1 * x1 * x1 + 3 * (x1 * x1 * t) + 3 * (x1 * t * t) + t * t * t) by (
    nonlinear_arith)
        requires
            xx == x1 + t,
    ;
    assert(yy * yy == (l * t) * (l * t) + 2 * ((l * t) * y1) + y1 * y1) by (nonlinear_arith)
        requires
            yy == -(l * t) - y1,
    ;
    assert(t * t * t + 3 * (x1 * t * t) - (l * t) * (l * t) == -(d * (t * t))) by (nonlinear_arith)
        requires
            t == l * l - x1 - x2 - x1,
            d == x2 - x1,
    ;
    assert(a * xx == a * x1 + a * t) by (nonlinear_arith)
        requires
            xx == x1 + t,
    ;
    assert(3 * (x1 * x1 * t) + a * t - 2 * ((l * t) * y1) == t * ((3 * x1 * x1 + a) - l * (2 * y1)))
        by (nonlinear_arith);
}

/// `(x2 - x1)(3 x1^2 + a) = rhs(x2) - rhs(x1) - (x2 - x1)^2 (x2 + 2 x1)`, with `a` and `b`
/// free.
proof fn lemma_cube_difference(x1: int, x2: int, a: int, b: int)
    ensures
        (x2 - x1) * (3 * x1 * x1 + a) == (x2 * x2 * x2 + a * x2 + b) - (x1 * x1 * x1 + a * x1 + b) - (x2
            - x1) * (x2 - x1) * (x2 + 2 * x1),
{
    let d = x2 - x1;
    assert(x2 * x2 * x2 - x1 * x1 * x1 == d * (x2 * x2 + x1 * x2 + x1 * x1)) by (nonlinear_arith)
        requires
            d == x2 - x1,
    ;
    assert(d * d * (x2 + 2 * x1) == d * (x2 * x2 + x1 * x2 - 2 * (x1 * x1))) by (nonlinear_arith)
        requires
            d == x2 - x1,
    ;
    assert(a * x2 - a * x1 == d * a) by (nonlinear_arith)
        requires
            d == x2 - x1,
    ;
    assert(d * (x2 * x2 + x1 * x2 + x1 * x1) - d * (x2 * x2 + x1 * x2 - 2 * (x1 * x1)) + d * a == d * (3
        * x1 * x1 + a)) by (nonlinear_arith);
}

/// The slope of the chord through `(x1, y1)` and `(x2, y2)` solves `l * (x2 - x1) = y2 - y1`
/// modulo p; `i` is the inverse used, with `i * (x2 - x1) = 1` modulo p.
proof fn lemma_chord_slope(x1: int, y1: int, x2: int, y2: int)
    requires
        fermat_holds(x2 - x1),
    ensures
        modp(modp(modp(y2 - y1) * mod_inv_spec(modp(x2 - x1))) * (x2 - x1)) == modp(y2 - y1),
        modp(mod_inv_spec(modp(x2 - x1)) * (x2 - x1)) == 1,
{
    let d = x2 - x1;
    let c = y2 - y1;
    let i = mod_inv_spec(modp(d));
    let l = modp(modp(c) * i);
    cong_reduce(d);
    assert(fermat_holds(modp(d)));
    lemma_inverse(modp(d));
    cong_mul(i, d, i, modp(d));
    cong_reduce(modp(c) * i);
    cong_mul(l, d, modp(c) * i, d);
    assert((modp(c) * i) * d == modp(c) * (i * d)) by (nonlinear_arith);
    assert(modp(1) == 1);
    cong_reduce(c);
    cong_mul(modp(c), i * d, c, 1);
}

/// Adding two points of the curve with different x coordinates gives a point of the curve:
/// if `(x1, y1)` and `(x2, y2)` satisfy `y^2 = x^3 + a*x + b` (mod p), so does their sum.
/// The slope divides by `x2 - x1` through `mod_inv_spec`, which inverts modulo p where
/// Fermat's little theorem holds (for every `x2 - x1` not divisible by p, p being prime).
pub proof fn lemma_add_on_curve(x1: int, y1: int, x2: int, y2: int)
    requires
        on_curve(x1, y1),
        on_curve(x2, y2),
        x1 != x2,
        fermat_holds(x2 - x1),
    ensures
        match point_add_spec(PointV::Affine(x1, y1), PointV::Affine(x2, y2)) {
            PointV::Affine(x3, y3) => on_curve(x3, y3),
            PointV::Infinity => true,
        },
{
    let a = curve_a();
    let d = x2 - x1;
    let c = y2 - y1;
    let i = mod_inv_spec(modp(d));
    let l = modp(modp(c) * i);
    let xx = l * l - x1 - x2;
    let yy = l * (x1 - xx) - y1;
    let t = xx - x1;
    let k = 3 * x1 * x1 + a;
    let h = k - l * (2 * y1);
    let e = curve_rhs(x1) - y1 * y1;
    let f = curve_rhs(xx) - yy * yy;
    lemma_chord_slope(x1, y1, x2, y2);
    lemma_chord_identity(l, x1, y1, x2, xx, yy);
    assert(f == e + t * h - d * (t * t));
    // d * f, regrouped
    assert(d * f == d * e + t * (d * k - 2 * y1 * (l * d)) - t * (d * d * t)) by (nonlinear_arith)
        requires
            f == e + t * h - d * (t * t),
            h == k - l * (2 * y1),
    ;
    // the curve equation at both points
    lemma_sub_mod_noop(curve_rhs(x1), y1 * y1, curve_p());
    assert(modp(e) == 0);
    // d*k = (rhs(x2) - rhs(x1)) - d^2 (x2 + 2 x1)
    lemma_cube_difference(x1, x2, a, curve_b());
    assert(d * k == (curve_rhs(x2) - curve_rhs(x1)) - d * d * (x2 + 2 * x1));
    assert(y2 * y2 - y1 * y1 == c * (y2 + y1)) by (nonlinear_arith)
        requires
            c == y2 - y1,
    ;
    cong_sub(curve_rhs(x2), curve_rhs(x1), y2 * y2, y1 * y1);
    let m = d * d * (x2 + 2 * x1);
    cong_sub(curve_rhs(x2) - curve_rhs(x1), m, y2 * y2 - y1 * y1, m);
    assert(modp(d * k) == modp(c * (y2 + y1) - m));
    cong_mul(2 * y1, l * d, 2 * y1, c);
    cong_sub(d * k, 2 * y1 * (l * d), c * (y2 + y1) - m, 2 * y1 * c);
    assert(c * (y2 + y1) - m - 2 * y1 * c == c * c - m) by (nonlinear_arith)
        requires
            c == y2 - y1,
    ;
    // d^2 t = (l d)^2 - d^2 (x2 + 2 x1)
    assert(d * d * t == (l * d) * (l * d) - m) by (nonlinear_arith)
        requires
            t == l * l - x1 - x2 - x1,
            m == d * d * (x2 + 2 * x1),
    ;
    cong_mul(l * d, l * d, c, c);
    cong_sub((l * d) * (l * d), m, c * c, m);
    let g = d * k - 2 * y1 * (l * d);
    assert(modp(g) == modp(d * d * t));
    // d * f = 0 modulo p
    assert(modp(0) == 0);
    cong_mul(d, e, d, 0);
    cong_mul(t, g, t, d * d * t);
    cong_add(d * e, t * g, 0, t * (d * d * t));
    cong_sub(d * e + t * g, t * (d * d * t), 0 + t * (d * d * t), t * (d * d * t));
    assert(modp(d * f) == 0);
    // f = f * (i * d) = (d * f) * i = 0 modulo p
    cong_mul(f, i * d, f, 1);
    assert(f * (i * d) == (d * f) * i) by (nonlinear_arith);
    cong_mul(d * f, i, 0, i);
    assert(modp(f) == 0);
    lemma_on_curve_reduced(l, x1, y1, xx, yy);
}

/// Scalar multiplication by double-and-add: `0 * P` is the point at infinity, `1 * P` is
/// `P`, and `(2k) * P` is `k * (P + P)`.
pub proof fn lemma_scalar_mul_steps(k: nat, pt: PointV)
    ensures
        scalar_mul_spec(0, pt) == PointV::Infinity,
        scalar_mul_spec(1, pt) == pt,
        scalar_mul_spec(2 * k, pt) == scalar_mul_spec(k, point_add_spec(pt, pt)),
{
    assert(scalar_mul_loop(pt, point_add_spec(pt, pt), 0) == pt);
    if k > 0 {
        assert((2 * k) % 2 == 0 && (2 * k) / 2 == k);
    }
}

/// Whether a point is the point at infinity or has both coordinates in `[0, p)`.
pub open spec fn reduced(pt: PointV) -> bool {
    match pt {
        PointV::Infinity => true,
        PointV::Affine(x, y) => 0 <= x < curve_p() && 0 <= y < curve_p(),
    }
}

proof fn lemma_scalar_mul_loop_reduced(result: PointV, addend: PointV, k: nat)
    requires
        reduced(result),
        reduced(addend),
    ensures
        reduced(scalar_mul_loop(result, addend, k)),
    decreases k,
{
    if k > 0 {
        let r = if k % 2 == 1 {
            point_add_spec(result, addend)
        } else {
            result
        };
        lemma_scalar_mul_loop_reduced(r, point_add_spec(addend, addend), k / 2);
    }
}

/// A multiple of the generator, written as a public key, is read back as the same point:
/// the 40 bytes that [`Ephemeral::from_random`] makes for `d * G` are the coordinates
/// that [`Ephemeral::shared_secret`] takes from a peer key. So the secret each side
/// derives is the x coordinate of `d_self * (d_peer * G)`.
pub proof fn lemma_public_key_reads_back(d: nat, key: Seq<u8>)
    requires
        scalar_mul_spec(d, generator()) is Affine,
        encodes_point(key, scalar_mul_spec(d, generator())->0, scalar_mul_spec(d, generator())->1),
    ensures
        PointV::Affine(
            be_value(key.subrange(0, 20)) as int,
            be_value(key.subrange(20, 40)) as int,
        ) == scalar_mul_spec(d, generator()),
{
    lemma_scalar_mul_loop_reduced(PointV::Infinity, generator(), d);
    let x = scalar_mul_spec(d, generator())->0;
    let y = scalar_mul_spec(d, generator())->1;
    reveal_with_fuel(pow256, 21);
    assert(pow256(20) == 0x10000000000000000000000000000000000000000nat);
    lemma_small_mod(x as nat, pow256(20));
    lemma_small_mod(y as nat, pow256(20));
    assert(key.take(20) =~= key.subrange(0, 20));
    assert(key.skip(20) =~= key.subrange(20, 40));
}

} // verus!

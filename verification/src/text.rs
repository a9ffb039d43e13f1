//! Small text helpers: ASCII bytes to `String`, and decimal formatting of integers.
use vstd::prelude::*;

verus! {

/// The characters of ASCII bytes.
pub open spec fn ascii_chars(s: Seq<u8>) -> Seq<char> {
    Seq::new(s.len(), |i: int| s[i] as char)
}

/// Whether every byte is ASCII.
pub open spec fn all_ascii(s: Seq<u8>) -> bool {
    forall|i: int| 0 <= i < s.len() ==> s[i] < 0x80
}

/// `String::from_utf8`.
///
/// Trusted: std documents that the conversion succeeds exactly when the bytes are valid
/// UTF-8, and that the string then holds the characters they encode. ASCII bytes are
/// valid UTF-8, each byte encoding the character with that code.
#[verifier::external_body]
pub fn string_from_utf8(bytes: Vec<u8>) -> (r: Option<String>)
    ensures
        r is Some <==> vstd::utf8::valid_utf8(bytes@),
        r is Some ==> r->0@ == vstd::utf8::decode_utf8(bytes@),
        all_ascii(bytes@) ==> r is Some && r->0@ == ascii_chars(bytes@),
{
    String::from_utf8(bytes).ok()
}

/// The ASCII decimal digits of a natural number, most significant first.
pub open spec fn decimal_digits(m: nat) -> Seq<u8>
    decreases m,
{
    if m < 10 {
        seq![(0x30 + m) as u8]
    } else {
        decimal_digits(m / 10).push((0x30 + m % 10) as u8)
    }
}

/// The decimal text of an integer, with a leading `-` when negative.
pub open spec fn decimal_text(n: int) -> Seq<u8> {
    if n < 0 {
        seq![0x2du8] + decimal_digits((-n) as nat)
    } else {
        decimal_digits(n as nat)
    }
}

proof fn lemma_decimal_digits_ascii(m: nat)
    ensures
        all_ascii(decimal_digits(m)),
        decimal_digits(m).len() >= 1,
    decreases m,
{
    if m >= 10 {
        lemma_decimal_digits_ascii(m / 10);
    }
}

fn digits_of(m: u64) -> (r: Vec<u8>)
    ensures
        r@ == decimal_digits(m as nat),
    decreases m,
{
    if m < 10 {
        let r = vec![(0x30 + m) as u8];
        proof {
            assert(r@ =~= decimal_digits(m as nat));
        }
        r
    } else {
        let mut r = digits_of(m / 10);
        r.push((0x30 + m % 10) as u8);
        r
    }
}

/// The decimal text of an `i64` (as `to_string` writes it).
pub fn i64_to_decimal(n: i64) -> (s: String)
    ensures
        s@ == ascii_chars(decimal_text(n as int)),
{
    let mut bytes: Vec<u8>;
    if n < 0 {
        let m: u64 = if n == i64::MIN {
            0x8000_0000_0000_0000u64
        } else {
            (-n) as u64
        };
        bytes = vec![0x2d];
        let d = digits_of(m);
        bytes.extend_from_slice(d.as_slice());
        proof {
            assert(m as int == -(n as int));
            assert(bytes@ =~= decimal_text(n as int));
        }
    } else {
        bytes = digits_of(n as u64);
    }
    proof {
        let t = decimal_text(n as int);
        if n < 0 {
            lemma_decimal_digits_ascii((-n) as nat);
            assert(forall|i: int| 1 <= i < t.len() ==> t[i] == decimal_digits((-n) as nat)[i - 1]);
        } else {
            lemma_decimal_digits_ascii(n as nat);
        }
        assert(all_ascii(t));
    }
    match string_from_utf8(bytes) {
        Some(s) => s,
        None => String::new(),
    }
}

} // verus!

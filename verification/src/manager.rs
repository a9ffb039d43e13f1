//! The decisions of the device runtime: which id a device is known by, and which account
//! User ID (if any) the plaintext login is replayed with. The runtime itself (tasks,
//! channels, the BLE connection) is run by the caller.
use vstd::prelude::*;
use vstd::string::StrSliceExecFns;

use crate::auth::HandshakeError;

verus! {

/// Unicode White_Space, the characters `char::is_whitespace` accepts and `str::trim`
/// strips: U+0009..U+000D, U+0020, U+0085, U+00A0, U+1680, U+2000..U+200A, U+2028,
/// U+2029, U+202F, U+205F and U+3000.
pub open spec fn white_space(c: char) -> bool {
    let n = c as int;
    ||| 0x09 <= n <= 0x0d
    ||| n == 0x20
    ||| n == 0x85
    ||| n == 0xa0
    ||| n == 0x1680
    ||| 0x2000 <= n <= 0x200a
    ||| n == 0x2028
    ||| n == 0x2029
    ||| n == 0x202f
    ||| n == 0x205f
    ||| n == 0x3000
}

/// `s` without its leading white space.
pub open spec fn trim_start_ws(s: Seq<char>) -> Seq<char>
    decreases s.len(),
{
    if s.len() > 0 && white_space(s[0]) {
        trim_start_ws(s.drop_first())
    } else {
        s
    }
}

/// `s` without its trailing white space.
pub open spec fn trim_end_ws(s: Seq<char>) -> Seq<char>
    decreases s.len(),
{
    if s.len() > 0 && white_space(s.last()) {
        trim_end_ws(s.drop_last())
    } else {
        s
    }
}

/// `s` without its leading and trailing white space.
pub open spec fn trim_ws(s: Seq<char>) -> Seq<char> {
    trim_end_ws(trim_start_ws(s))
}

/// Whether a string holds nothing but white space.
pub open spec fn blank(s: Seq<char>) -> bool {
    trim_ws(s).len() == 0
}

/// `str::trim`.
///
/// Trusted: std documents that `trim` returns the string with its leading and trailing
/// white space (the Unicode White_Space property) removed.
#[verifier::external_body]
pub(crate) fn trim_str(s: &str) -> (r: &str)
    ensures
        r@ == trim_ws(s@),
{
    s.trim()
}

/// Whether a string is empty once trimmed.
fn is_blank(s: &str) -> (r: bool)
    ensures
        r == blank(s@),
{
    trim_str(s).unicode_len() == 0
}

/// The id a device is known by: its serial when known, else its BLE address.
pub fn device_uid(address: String, serial: Option<String>) -> (uid: String)
    ensures
        uid == (match serial {
            Some(s) => s,
            None => address,
        }),
{
    match serial {
        Some(s) => s,
        None => address,
    }
}

/// The account User ID to log in with: the given one unless it is blank.
pub fn account_id(user_id: Option<String>) -> (r: Option<String>)
    ensures
        r == (match user_id {
            Some(u) => if blank(u@) {
                None
            } else {
                Some(u)
            },
            None => None,
        }),
{
    match user_id {
        Some(u) => {
            if is_blank(u.as_str()) {
                None
            } else {
                Some(u)
            }
        },
        None => None,
    }
}

/// The User ID an encrypted device authenticates with: required and not blank.
pub fn require_user_id(user_id: &Option<String>) -> (r: Result<&String, HandshakeError>)
    ensures
        match user_id {
            Some(u) => if blank(u@) {
                r == Err::<&String, HandshakeError>(HandshakeError::MissingUserId)
            } else {
                r == Ok::<&String, HandshakeError>(u)
            },
            None => r == Err::<&String, HandshakeError>(HandshakeError::MissingUserId),
        },
{
    match user_id {
        Some(u) => {
            if is_blank(u.as_str()) {
                Err(HandshakeError::MissingUserId)
            } else {
                Ok(u)
            }
        },
        None => Err(HandshakeError::MissingUserId),
    }
}

} // verus!

//! EcoFlow cloud login: the login endpoint per region, and reading the numeric user id
//! out of the login response. The HTTP request itself is made by the caller.
use vstd::prelude::*;

use vstd::string::StringSliceAdditionalSpecFns;

use crate::text::{ascii_chars, decimal_text, i64_to_decimal};

use base64::Engine;

verus! {

/// EcoFlow account region.
#[derive(Clone, Copy, Debug, PartialEq, Eq)]
pub enum Region {
    Eu,
    Us,
}

impl Region {
    /// The login endpoint of the region.
    pub fn login_url(&self) -> (r: &'static str)
        ensures
            r == (match self {
                Region::Eu => "https://api-e.ecoflow.com/auth/login",
                Region::Us => "https://api-a.ecoflow.com/auth/login",
            }),
    {
        match self {
            Region::Eu => "https://api-e.ecoflow.com/auth/login",
            Region::Us => "https://api-a.ecoflow.com/auth/login",
        }
    }
}

/// The digit of a 6-bit value in the standard base64 alphabet (`A-Z a-z 0-9 + /`).
pub open spec fn b64_digit(v: int) -> char {
    if v < 26 {
        (65 + v) as char
    } else if v < 52 {
        (97 + v - 26) as char
    } else if v < 62 {
        (48 + v - 52) as char
    } else if v == 62 {
        '+'
    } else {
        '/'
    }
}

/// The standard (RFC 4648) base64 text of bytes: each group of three bytes gives four
/// digits of six bits each, most significant first; a final group of one or two bytes is
/// zero-filled and padded with `=` to four characters.
pub open spec fn base64_standard(d: Seq<u8>) -> Seq<char>
    decreases d.len(),
{
    if d.len() == 0 {
        Seq::empty()
    } else if d.len() == 1 {
        seq![b64_digit(d[0] as int / 4), b64_digit((d[0] as int % 4) * 16), '=', '=']
    } else if d.len() == 2 {
        seq![
            b64_digit(d[0] as int / 4),
            b64_digit((d[0] % 4) * 16 + d[1] / 16),
            b64_digit((d[1] % 16) * 4),
            '=',
        ]
    } else {
        seq![
            b64_digit(d[0] as int / 4),
            b64_digit((d[0] % 4) * 16 + d[1] / 16),
            b64_digit((d[1] % 16) * 4 + d[2] / 64),
            b64_digit(d[2] as int % 64),
        ] + base64_standard(d.skip(3))
    }
}

/// `base64::engine::general_purpose::STANDARD.encode(data)`.
///
/// Trusted: the `base64` crate's standard engine writes the RFC 4648 alphabet with `=`
/// padding, which is what the contract states.
#[verifier::external_body]
fn base64_encode(data: &[u8]) -> (r: String)
    ensures
        r@ == base64_standard(data@),
{
    base64::engine::general_purpose::STANDARD.encode(data)
}

/// The fields of the login request body. The password is sent base64-encoded and used for
/// this request only.
pub struct LoginRequest {
    pub email: String,
    pub password: String,
    pub scene: String,
    pub user_type: String,
}

/// The login request for an account, mirroring the official app's login.
pub fn login_request(email: &str, password: &str) -> (r: LoginRequest)
    ensures
        r.email@ == email@,
        r.password@ == base64_standard(password.spec_bytes()),
        r.scene@ == "IOT_APP"@,
        r.user_type@ == "ECOFLOW"@,
{
    LoginRequest {
        email: String::from_str(email),
        password: base64_encode(password.as_bytes()),
        scene: String::from_str("IOT_APP"),
        user_type: String::from_str("ECOFLOW"),
    }
}

/// What the login logic reads from a login response: `data.user.userId` as a string or as
/// an integer, the `code` field as JSON text, and the `message` field when it is a string.
pub struct LoginReply {
    pub user_id_str: Option<String>,
    pub user_id_i64: Option<i64>,
    pub code: Option<String>,
    pub message: Option<String>,
}

/// The mathematical value of a [`LoginReply`].
pub struct LoginReplyView {
    pub user_id_str: Option<Seq<char>>,
    pub user_id_i64: Option<i64>,
    pub code: Option<Seq<char>>,
    pub message: Option<Seq<char>>,
}

/// The view of an optional string.
pub open spec fn opt_string_view(s: Option<String>) -> Option<Seq<char>> {
    match s {
        Some(x) => Some(x@),
        None => None,
    }
}

impl View for LoginReply {
    type V = LoginReplyView;

    open spec fn view(&self) -> LoginReplyView {
        LoginReplyView {
            user_id_str: opt_string_view(self.user_id_str),
            user_id_i64: self.user_id_i64,
            code: opt_string_view(self.code),
            message: opt_string_view(self.message),
        }
    }
}

/// The fields `serde_json` reads from a response body (`None` when it is not JSON).
pub uninterp spec fn login_reply_of_json(body: Seq<char>) -> Option<LoginReplyView>;

/// `serde_json::from_str::<Value>` on the body, then `pointer("/data/user/userId")`
/// (`as_str`, `as_i64`), `get("code")` (`to_string`) and `get("message")` (`as_str`).
///
/// Trusted: the result is the named reading of the body; it depends on the body alone.
#[verifier::external_body]
fn parse_login_reply(body: &str) -> (r: Option<LoginReply>)
    ensures
        match r {
            Some(x) => login_reply_of_json(body@) == Some(x@),
            None => login_reply_of_json(body@) is None,
        },
{
    let v: serde_json::Value = serde_json::from_str(body).ok()?;
    let u = v.pointer("/data/user/userId");
    Some(LoginReply {
        user_id_str: u.and_then(|x| x.as_str()).map(|s| s.to_string()),
        user_id_i64: u.and_then(|x| x.as_i64()),
        code: v.get("code").map(|c| c.to_string()),
        message: v.get("message").and_then(|m| m.as_str()).map(|s| s.to_string()),
    })
}

/// Why a login response gave no user id.
#[derive(Debug, Clone, PartialEq, Eq)]
pub enum LoginError {
    /// The body is not JSON.
    InvalidJson,
    /// No (non-empty) user id: the response's code (JSON text, empty when absent) and
    /// message ("login failed" when absent).
    NoUserId { code: String, message: String },
}

/// The user id a reply carries: the string id, else the integer id as decimal text.
pub open spec fn reply_user_id(r: LoginReplyView) -> Option<Seq<char>> {
    match r.user_id_str {
        Some(s) => Some(s),
        None => match r.user_id_i64 {
            Some(n) => Some(ascii_chars(decimal_text(n as int))),
            None => None,
        },
    }
}

/// The error message when a reply has no user id.
pub open spec fn reply_message(r: LoginReplyView) -> Seq<char> {
    match r.message {
        Some(m) => m,
        None => "login failed"@,
    }
}

/// The error code text when a reply has no user id.
pub open spec fn reply_code(r: LoginReplyView) -> Seq<char> {
    match r.code {
        Some(c) => c,
        None => Seq::empty(),
    }
}

/// Pull the user id out of a login reply, tolerating string or numeric ids.
pub fn user_id_from_reply(reply: LoginReply) -> (r: Result<String, LoginError>)
    ensures
        match reply_user_id(reply@) {
            Some(id) if id.len() > 0 => r matches Ok(s) && s@ == id,
            _ => r matches Err(LoginError::NoUserId { code, message }) && code@ == reply_code(reply@)
                && message@ == reply_message(reply@),
        },
{
    let ghost v = reply@;
    let user_id = match reply.user_id_str {
        Some(s) => Some(s),
        None => match reply.user_id_i64 {
            Some(n) => Some(i64_to_decimal(n)),
            None => None,
        },
    };
    match user_id {
        Some(id) if !id.as_str().is_empty() => Ok(id),
        _ => {
            let code = match reply.code {
                Some(c) => c,
                None => String::new(),
            };
            let message = match reply.message {
                Some(m) => m,
                None => {
                    proof {
                        reveal_strlit("login failed");
                    }
                    String::from_str("login failed")
                },
            };
            Err(LoginError::NoUserId { code, message })
        },
    }
}

/// Pull `data.user.userId` out of a login response, tolerating string or numeric ids.
pub fn extract_user_id(body: &str) -> (r: Result<String, LoginError>)
    ensures
        match login_reply_of_json(body@) {
            None => r matches Err(LoginError::InvalidJson),
            Some(reply) => match reply_user_id(reply) {
                Some(id) if id.len() > 0 => r matches Ok(s) && s@ == id,
                _ => r matches Err(LoginError::NoUserId { code, message }) && code@ == reply_code(reply)
                    && message@ == reply_message(reply),
            },
        },
{
    match parse_login_reply(body) {
        None => Err(LoginError::InvalidJson),
        Some(reply) => user_id_from_reply(reply),
    }
}

} // verus!

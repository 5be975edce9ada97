//! Double-submit cross-site-request-forgery protection.
//!
//! A high-entropy token is placed in a cookie that client script can read and
//! must echo in a request header on every mutating request. Forged
//! cross-origin requests can force the cookie to be sent but cannot read it,
//! so they cannot reproduce the header. Verification demands both values and
//! compares them in constant time; the absence of either is a hard failure.

use vstd::prelude::*;
use vstd::string::StringExecFns;
use rand::Rng;
use crate::cookies::{
    same_site_policy, spec_same_site, CookieSpec, EXPIRED_COOKIE_OFFSET_SECONDS,
};
use crate::errors::AppError;

verus! {

/// Name of the script-readable cookie carrying the anti-forgery token.
pub const CSRF_COOKIE: &'static str = "kf_csrf";

/// Name of the request header that must echo the cookie's value.
pub const CSRF_HEADER: &'static str = "x-csrf-token";

/// The URL-safe base64 alphabet.
pub open spec fn b64url_alphabet() -> Seq<char> {
    seq![
        'A', 'B', 'C', 'D', 'E', 'F', 'G', 'H', 'I', 'J', 'K', 'L', 'M', 'N', 'O', 'P', 'Q',
        'R', 'S', 'T', 'U', 'V', 'W', 'X', 'Y', 'Z', 'a', 'b', 'c', 'd', 'e', 'f', 'g', 'h',
        'i', 'j', 'k', 'l', 'm', 'n', 'o', 'p', 'q', 'r', 's', 't', 'u', 'v', 'w', 'x', 'y',
        'z', '0', '1', '2', '3', '4', '5', '6', '7', '8', '9', '-', '_',
    ]
}

/// URL-safe base64 without padding: each three-byte group becomes four
/// six-bit characters; a trailing group of one or two bytes becomes two or
/// three characters.
pub open spec fn base64url_nopad(b: Seq<u8>) -> Seq<char>
    decreases b.len(),
{
    let tab = b64url_alphabet();
    if b.len() == 0 {
        Seq::<char>::empty()
    } else if b.len() == 1 {
        seq![tab[b[0] as int / 4], tab[(b[0] as int % 4) * 16]]
    } else if b.len() == 2 {
        seq![
            tab[b[0] as int / 4],
            tab[(b[0] as int % 4) * 16 + b[1] as int / 16],
            tab[(b[1] as int % 16) * 4],
        ]
    } else {
        seq![
            tab[b[0] as int / 4],
            tab[(b[0] as int % 4) * 16 + b[1] as int / 16],
            tab[(b[1] as int % 16) * 4 + b[2] as int / 64],
            tab[b[2] as int % 64],
        ] + base64url_nopad(b.skip(3))
    }
}

proof fn lemma_base64url_nopad_len(b: Seq<u8>)
    ensures
        b.len() % 3 == 0 ==> base64url_nopad(b).len() == b.len() / 3 * 4,
        b.len() % 3 == 1 ==> base64url_nopad(b).len() == b.len() / 3 * 4 + 2,
        b.len() % 3 == 2 ==> base64url_nopad(b).len() == b.len() / 3 * 4 + 3,
    decreases b.len(),
{
    if b.len() > 2 {
        lemma_base64url_nopad_len(b.skip(3));
    }
}

/// Relies on base64's `URL_SAFE_NO_PAD` engine: RFC 4648 URL-safe base64
/// without padding.
#[verifier::external_body]
fn base64url_encode(bytes: &Vec<u8>) -> (r: String)
    ensures
        r@ == base64url_nopad(bytes@),
{
    base64::Engine::encode(&base64::engine::general_purpose::URL_SAFE_NO_PAD, bytes)
}

/// Relies on rand's thread-local cryptographically secure generator to fill
/// a fresh thirty-two byte buffer; nothing is assumed of the values.
#[verifier::external_body]
fn random_bytes_32() -> (r: Vec<u8>)
    ensures
        r@.len() == 32,
{
    let mut b = vec![0u8; 32];
    rand::rng().fill_bytes(&mut b);
    b
}

/// Relies on subtle's `ConstantTimeEq` for byte slices: the comparison runs
/// in constant time and returns true exactly when the byte strings are
/// equal; equal UTF-8 byte strings carry equal character sequences and vice
/// versa.
#[verifier::external_body]
fn constant_time_str_eq(a: &str, b: &str) -> (r: bool)
    ensures
        r == (a@ == b@),
{
    subtle::ConstantTimeEq::ct_eq(a.as_bytes(), b.as_bytes()).into()
}

/// The token is the URL-safe, unpadded base64 encoding of thirty-two bytes:
/// the fixed byte length and encoding of every anti-forgery token.
pub open spec fn csrf_token_encoding(t: Seq<char>) -> bool {
    exists|b: Seq<u8>| b.len() == 32 && t == #[trigger] base64url_nopad(b)
}

/// A fresh anti-forgery token: forty-three characters encoding thirty-two
/// random bytes.
fn generate_csrf_token() -> (r: String)
    ensures
        r@.len() == 43,
        csrf_token_encoding(r@),
{
    let bytes = random_bytes_32();
    let token = base64url_encode(&bytes);
    proof {
        lemma_base64url_nopad_len(bytes@);
    }
    token
}

/// One value of the CSRF request header, as the transport saw it.
pub enum HeaderField {
    /// The header was absent.
    Missing,
    /// The header was present but not readable as text.
    Opaque,
    /// The header's text.
    Text(String),
}

/// The attributes every CSRF cookie shares: script-readable, whole-origin,
/// secure-matched SameSite.
pub open spec fn csrf_cookie_shape(c: CookieSpec, secure: bool) -> bool {
    &&& c.name@ == CSRF_COOKIE@
    &&& c.http_only == false
    &&& c.secure == secure
    &&& c.same_site == spec_same_site(secure)
    &&& c.path@ == "/"@
}

/// The script-readable cookie carrying `value`.
pub fn build_csrf_cookie(value: &str, secure: bool) -> (r: CookieSpec)
    ensures
        csrf_cookie_shape(r, secure),
        r.value@ == value@,
        r.max_age_seconds is None,
        r.expires_offset_seconds is None,
{
    CookieSpec {
        name: CSRF_COOKIE.to_owned(),
        value: value.to_owned(),
        http_only: false,
        secure,
        same_site: same_site_policy(secure),
        path: "/".to_owned(),
        max_age_seconds: None,
        expires_offset_seconds: None,
    }
}

/// A fresh token and the cookie that carries it.
pub fn issue_csrf_cookie(secure: bool) -> (r: (CookieSpec, String))
    ensures
        csrf_cookie_shape(r.0, secure),
        r.0.value@ == r.1@,
        r.1@.len() == 43,
        csrf_token_encoding(r.1@),
{
    let token = generate_csrf_token();
    let cookie = build_csrf_cookie(token.as_str(), secure);
    (cookie, token)
}

/// The existing cookie's token when one is present — no new cookie is set,
/// so the token is not rotated on every request — else a fresh one as
/// [`issue_csrf_cookie`].
pub fn ensure_csrf_cookie(existing: Option<&String>, secure: bool) -> (r: (
    Option<CookieSpec>,
    String,
))
    ensures
        existing matches Some(t) ==> r.0 is None && r.1@ == t@,
        existing is None ==> {
            &&& r.0 matches Some(c) && csrf_cookie_shape(c, secure) && c.value@ == r.1@
            &&& r.1@.len() == 43
            &&& csrf_token_encoding(r.1@)
        },
{
    match existing {
        Some(t) => (None, t.clone()),
        None => {
            let (cookie, token) = issue_csrf_cookie(secure);
            (Some(cookie), token)
        },
    }
}

/// Demands the cookie and the echoing header, byte-identical under a
/// constant-time comparison. Succeeds exactly when both are present and
/// equal; each failure is a forbidden-class error naming what was wrong.
pub fn verify_csrf(cookie: Option<&String>, header: &HeaderField) -> (r: Result<(), AppError>)
    ensures
        r is Ok <==> (header matches HeaderField::Text(t) && cookie matches Some(c) && c@
            == t@),
        header is Missing ==> (r matches Err(e) && e matches AppError::Forbidden(m) && m@
            == "missing csrf header"@),
        header is Opaque ==> (r matches Err(e) && e matches AppError::Forbidden(m) && m@
            == "invalid csrf header"@),
        header is Text && cookie is None ==> (r matches Err(e) && e matches AppError::Forbidden(
            m,
        ) && m@ == "missing csrf cookie"@),
        header matches HeaderField::Text(t) && cookie matches Some(c) && c@ != t@ ==> (r matches
            Err(e) && e matches AppError::Forbidden(m) && m@ == "csrf token mismatch"@),
{
    let header_value = match header {
        HeaderField::Missing => {
            return Err(AppError::Forbidden(String::from_str("missing csrf header")));
        },
        HeaderField::Opaque => {
            return Err(AppError::Forbidden(String::from_str("invalid csrf header")));
        },
        HeaderField::Text(t) => t,
    };
    let cookie_value = match cookie {
        None => {
            return Err(AppError::Forbidden(String::from_str("missing csrf cookie")));
        },
        Some(c) => c,
    };
    if constant_time_str_eq(cookie_value.as_str(), header_value.as_str()) {
        Ok(())
    } else {
        Err(AppError::Forbidden(String::from_str("csrf token mismatch")))
    }
}

/// A directive that immediately invalidates the CSRF cookie, used at logout.
pub fn expire_csrf_cookie(secure: bool) -> (r: CookieSpec)
    ensures
        csrf_cookie_shape(r, secure),
        r.clears_cookie(),
        r.value@ == Seq::<char>::empty(),
        r.max_age_seconds == Some(0i64),
        r.expires_offset_seconds == Some(EXPIRED_COOKIE_OFFSET_SECONDS),
{
    CookieSpec {
        name: CSRF_COOKIE.to_owned(),
        value: String::new(),
        http_only: false,
        secure,
        same_site: same_site_policy(secure),
        path: "/".to_owned(),
        max_age_seconds: Some(0),
        expires_offset_seconds: Some(EXPIRED_COOKIE_OFFSET_SECONDS),
    }
}

} // verus!

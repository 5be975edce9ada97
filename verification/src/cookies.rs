//! Cookie-attribute decisions, as plain values.
//!
//! The core decides every attribute of every cookie it sets (name, value,
//! flags, lifetime); the transport layer only turns a `CookieSpec` into an
//! actual `Set-Cookie` header. Expiration instants are carried as offsets
//! relative to the moment the cookie is sent, so the decisions stay pure.

use vstd::prelude::*;

verus! {

/// Lifetime of a session cookie, in seconds: twelve hours.
pub const SESSION_COOKIE_SECONDS: i64 = 43200;

/// Lifetime of a transient login-flow cookie, in seconds: ten minutes.
pub const TEMP_COOKIE_SECONDS: i64 = 600;

/// Offset placed in an expired cookie's `Expires` attribute: one hour in the
/// past, so that clients drop the cookie immediately.
pub const EXPIRED_COOKIE_OFFSET_SECONDS: i64 = -3600;

/// SameSite policy of a cookie. Cross-site delivery is only used on secure
/// (HTTPS) deployments; otherwise the cookie stays same-site lax.
#[derive(Debug, Clone, Copy, PartialEq, Eq, Structural)]
pub enum SameSitePolicy {
    CrossSite,
    Lax,
}

/// The SameSite policy matched to the deployment's secure-cookie mode.
pub open spec fn spec_same_site(secure: bool) -> SameSitePolicy {
    if secure {
        SameSitePolicy::CrossSite
    } else {
        SameSitePolicy::Lax
    }
}

pub fn same_site_policy(secure: bool) -> (r: SameSitePolicy)
    ensures
        r == spec_same_site(secure),
{
    if secure {
        SameSitePolicy::CrossSite
    } else {
        SameSitePolicy::Lax
    }
}

/// Every attribute of one `Set-Cookie` decision.
///
/// `max_age_seconds` and `expires_offset_seconds` are both optional; an
/// expiration offset is relative to the moment the cookie is sent, and a
/// negative offset clears the cookie.
#[derive(Debug, Clone)]
pub struct CookieSpec {
    pub name: String,
    pub value: String,
    pub http_only: bool,
    pub secure: bool,
    pub same_site: SameSitePolicy,
    pub path: String,
    pub max_age_seconds: Option<i64>,
    pub expires_offset_seconds: Option<i64>,
}

impl CookieSpec {
    /// True when the cookie directive immediately invalidates the cookie:
    /// empty value, zero max-age, expiration in the past.
    pub open spec fn clears_cookie(self) -> bool {
        &&& self.value@ == Seq::<char>::empty()
        &&& self.max_age_seconds == Some(0i64)
        &&& self.expires_offset_seconds matches Some(off) && off < 0
    }
}

/// A short-lived, HTTP-only cookie holding one transient login-flow secret.
pub fn build_temp_cookie(name: &str, value: &str, secure: bool) -> (r: CookieSpec)
    ensures
        r.name@ == name@,
        r.value@ == value@,
        r.http_only == true,
        r.secure == secure,
        r.same_site == spec_same_site(secure),
        r.path@ == "/"@,
        r.max_age_seconds is None,
        r.expires_offset_seconds == Some(TEMP_COOKIE_SECONDS),
{
    CookieSpec {
        name: name.to_owned(),
        value: value.to_owned(),
        http_only: true,
        secure,
        same_site: same_site_policy(secure),
        path: "/".to_owned(),
        max_age_seconds: None,
        expires_offset_seconds: Some(TEMP_COOKIE_SECONDS),
    }
}

/// A directive that immediately invalidates the named cookie.
pub fn expire_cookie(name: &str, secure: bool, http_only: bool) -> (r: CookieSpec)
    ensures
        r.name@ == name@,
        r.clears_cookie(),
        r.value@ == Seq::<char>::empty(),
        r.http_only == http_only,
        r.secure == secure,
        r.same_site == spec_same_site(secure),
        r.path@ == "/"@,
        r.max_age_seconds == Some(0i64),
        r.expires_offset_seconds == Some(EXPIRED_COOKIE_OFFSET_SECONDS),
{
    CookieSpec {
        name: name.to_owned(),
        value: String::new(),
        http_only,
        secure,
        same_site: same_site_policy(secure),
        path: "/".to_owned(),
        max_age_seconds: Some(0),
        expires_offset_seconds: Some(EXPIRED_COOKIE_OFFSET_SECONDS),
    }
}

/// The HTTP-only, twelve-hour cookie that carries the session credential.
pub fn build_session_cookie(name: &str, value: &str, secure: bool) -> (r: CookieSpec)
    ensures
        r.name@ == name@,
        r.value@ == value@,
        r.http_only == true,
        r.secure == secure,
        r.same_site == spec_same_site(secure),
        r.path@ == "/"@,
        r.max_age_seconds == Some(SESSION_COOKIE_SECONDS),
        r.expires_offset_seconds == Some(SESSION_COOKIE_SECONDS),
{
    CookieSpec {
        name: name.to_owned(),
        value: value.to_owned(),
        http_only: true,
        secure,
        same_site: same_site_policy(secure),
        path: "/".to_owned(),
        max_age_seconds: Some(SESSION_COOKIE_SECONDS),
        expires_offset_seconds: Some(SESSION_COOKIE_SECONDS),
    }
}

} // verus!

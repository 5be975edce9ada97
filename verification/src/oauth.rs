//! The authorization-code-with-PKCE handshake, as decisions over plain
//! values.
//!
//! The identity provider and the user directory are external collaborators:
//! the transport layer builds the provider's authorization URL, performs the
//! code-for-token exchange and the profile fetch, and stores user records.
//! Everything the flow decides — which cookies carry the transient state
//! nonce and PKCE verifier, when a callback is rejected, what establishes
//! the authenticated session, and what logout clears — is here, verified.

use vstd::prelude::*;
use crate::cookies::{
    build_session_cookie, build_temp_cookie, expire_cookie, spec_same_site, CookieSpec,
    SESSION_COOKIE_SECONDS, TEMP_COOKIE_SECONDS,
};
use crate::csrf::{
    csrf_cookie_shape, expire_csrf_cookie, issue_csrf_cookie, verify_csrf, HeaderField,
};
use crate::errors::AppError;
use crate::ids::{hex_digit_of, parse_uuid, uuid_chars, UserId};
use crate::net::{opt_view, resolve_client_ip, spec_resolve, IpAddress};
use crate::rate_limit::{admit_spec, RateLimiter};
use crate::session::{
    jwt_payload_of, jwt_sig_ok, jwt_token_of, jwt_wellformed, verify_accepts, verify_unsigned,
    SessionSigner, SESSION_LIFETIME_SECONDS,
};
use crate::text::{from_chars, to_chars};
use crate::users::str_eq;
use vstd::string::StringExecFns;

verus! {

/// Name of the HTTP-only cookie carrying the session credential.
pub const SESSION_COOKIE: &'static str = "kf_session";

/// Name of the transient cookie carrying the anti-forgery state nonce of one
/// login attempt.
pub const OAUTH_STATE_COOKIE: &'static str = "kf_oauth_state";

/// Name of the transient cookie carrying the PKCE verifier of one login
/// attempt.
pub const OAUTH_PKCE_COOKIE: &'static str = "kf_oauth_pkce";

/// The query parameters the identity provider sends to the callback route.
#[derive(Debug, Clone)]
pub struct OAuthCallback {
    pub code: String,
    pub state: String,
}

/// What the session route reports: the user's public fields and the token
/// that mutating requests must echo.
#[derive(Debug, Clone)]
pub struct SessionResponse {
    pub user: crate::users::PublicUser,
    pub csrf_token: String,
}

/// The decimal digits of a number, most significant first.
pub open spec fn dec_chars(n: int) -> Seq<char>
    decreases n,
{
    if n < 10 {
        seq![crate::ids::hex_digit_char(n)]
    } else {
        dec_chars(n / 10) + seq![crate::ids::hex_digit_char(n % 10)]
    }
}

fn render_u16(n: u16) -> (r: Vec<char>)
    ensures
        r@ == dec_chars(n as int),
    decreases n,
{
    if n < 10 {
        let mut r: Vec<char> = Vec::new();
        r.push(hex_digit_of(n as u128));
        proof {
            assert(r@ =~= dec_chars(n as int));
        }
        r
    } else {
        let mut r = render_u16(n / 10);
        r.push(hex_digit_of((n % 10) as u128));
        proof {
            assert(r@ =~= dec_chars(n as int));
        }
        r
    }
}

/// The client-visible failure for an unsuccessful identity-provider
/// response: a bad-request error reflecting the provider's status, never the
/// provider's body or any secret.
pub fn provider_failure(status: u16) -> (r: AppError)
    ensures
        r matches AppError::BadRequest(m) && m@ == "github api error: "@ + dec_chars(
            status as int,
        ),
{
    let mut chars = to_chars("github api error: ");
    let mut digits = render_u16(status);
    chars.append(&mut digits);
    AppError::BadRequest(from_chars(&chars))
}

/// The shared prologue of every rate-limited route: resolve the client
/// address from the peer address and the forwarded headers, then pass it
/// through the limiter at time `now_ms`.
pub fn auth_gate(
    limiter: &mut RateLimiter,
    peer: IpAddress,
    forwarded_for: Option<&String>,
    forwarded: Option<&String>,
    now_ms: u64,
) -> (r: Result<IpAddress, AppError>)
    requires
        old(limiter).wf(),
    ensures
        ({
            let addr = spec_resolve(peer, opt_view(forwarded_for), opt_view(forwarded));
            &&& final(limiter).wf()
            &&& final(limiter).cap() == old(limiter).cap()
            &&& final(limiter).window(addr) == admit_spec(
                old(limiter).window(addr),
                old(limiter).cap(),
                now_ms,
            ).0
            &&& forall|a: IpAddress|
                a != addr ==> final(limiter).window(a) == old(limiter).window(a)
            &&& r is Ok == admit_spec(old(limiter).window(addr), old(limiter).cap(), now_ms).1
            &&& (r matches Ok(res) ==> res == addr)
            &&& (r matches Err(e) ==> e == AppError::TooManyRequests)
        }),
{
    let addr = resolve_client_ip(peer, forwarded_for, forwarded);
    match limiter.check(addr, now_ms) {
        Ok(()) => Ok(addr),
        Err(e) => Err(e),
    }
}

/// What the login-initiation route sends once the limiter admits the
/// request: the two transient custody cookies and the provider redirect.
#[derive(Debug)]
pub struct LoginRedirect {
    pub state_cookie: CookieSpec,
    pub pkce_cookie: CookieSpec,
    pub redirect_url: String,
}

/// Stores the attempt's state nonce and PKCE verifier, each in its own
/// short-lived HTTP-only cookie, and redirects to the provider's
/// authorization URL.
pub fn login_redirect(
    state_nonce: &String,
    pkce_verifier: &String,
    auth_url: &String,
    secure: bool,
) -> (r: LoginRedirect)
    ensures
        r.state_cookie.name@ == OAUTH_STATE_COOKIE@,
        r.state_cookie.value@ == state_nonce@,
        r.pkce_cookie.name@ == OAUTH_PKCE_COOKIE@,
        r.pkce_cookie.value@ == pkce_verifier@,
        r.state_cookie.http_only && r.pkce_cookie.http_only,
        r.state_cookie.secure == secure && r.pkce_cookie.secure == secure,
        r.state_cookie.same_site == spec_same_site(secure),
        r.pkce_cookie.same_site == spec_same_site(secure),
        r.state_cookie.expires_offset_seconds == Some(TEMP_COOKIE_SECONDS),
        r.pkce_cookie.expires_offset_seconds == Some(TEMP_COOKIE_SECONDS),
        r.redirect_url@ == auth_url@,
{
    LoginRedirect {
        state_cookie: build_temp_cookie(OAUTH_STATE_COOKIE, state_nonce.as_str(), secure),
        pkce_cookie: build_temp_cookie(OAUTH_PKCE_COOKIE, pkce_verifier.as_str(), secure),
        redirect_url: auth_url.clone(),
    }
}

/// Validates a callback before any exchange with the provider: both
/// transient cookies must be present and the returned `state` must exactly
/// equal the stored nonce. On success the stored PKCE verifier is released
/// for the exchange; on any failure the attempt is rejected as a bad
/// request and no session is established.
pub fn callback_validate(
    state_cookie: Option<&String>,
    pkce_cookie: Option<&String>,
    query_state: &String,
) -> (r: Result<String, AppError>)
    ensures
        r is Ok <==> (state_cookie matches Some(sc) && pkce_cookie is Some && sc@
            == query_state@),
        r matches Ok(v) ==> (pkce_cookie matches Some(pc) && v@ == pc@),
        state_cookie is None ==> (r matches Err(e) && e matches AppError::BadRequest(m) && m@
            == "missing oauth state"@),
        state_cookie is Some && pkce_cookie is None ==> (r matches Err(e) && e matches
            AppError::BadRequest(m) && m@ == "missing pkce verifier"@),
        (state_cookie matches Some(sc) && pkce_cookie is Some && sc@ != query_state@) ==> (
        r matches Err(e) && e matches AppError::BadRequest(m) && m@ == "invalid oauth state"@),
{
    let sc = match state_cookie {
        None => {
            return Err(
                AppError::BadRequest(String::from_str("missing oauth state")),
            );
        },
        Some(sc) => sc,
    };
    let pc = match pkce_cookie {
        None => {
            return Err(
                AppError::BadRequest(
                    String::from_str("missing pkce verifier"),
                ),
            );
        },
        Some(pc) => pc,
    };
    if !str_eq(sc.as_str(), query_state.as_str()) {
        return Err(
            AppError::BadRequest(String::from_str("invalid oauth state")),
        );
    }
    Ok(pc.clone())
}

/// What the callback route sends after a successful exchange, profile fetch
/// and upsert: the consumed custody cookies cleared, the session
/// established, a CSRF token issued, and a redirect to the front-end origin.
#[derive(Debug)]
pub struct CallbackResponse {
    pub clear_state_cookie: CookieSpec,
    pub clear_pkce_cookie: CookieSpec,
    pub session_cookie: CookieSpec,
    pub csrf_cookie: CookieSpec,
    pub csrf_token: String,
    pub redirect_url: String,
}

/// Establishes the authenticated session for the resolved user: deletes
/// both transient cookies, signs a twelve-hour credential for the user with
/// the primary key, sets it as the HTTP-only session cookie, issues a CSRF
/// token, and redirects to the configured front-end origin. Succeeds
/// whenever the expiration is representable; clock overflow alone is an
/// internal error.
pub fn callback_establish(
    signer: &SessionSigner,
    user_id: UserId,
    now: i64,
    secure: bool,
    frontend_origin: &String,
) -> (r: Result<CallbackResponse, AppError>)
    requires
        signer.wf(),
    ensures
        r is Ok <==> now <= i64::MAX - SESSION_LIFETIME_SECONDS,
        r matches Err(e) ==> e == AppError::Internal,
        r matches Ok(c) ==> ({
            &&& c.clear_state_cookie.name@ == OAUTH_STATE_COOKIE@
            &&& c.clear_state_cookie.clears_cookie()
            &&& c.clear_pkce_cookie.name@ == OAUTH_PKCE_COOKIE@
            &&& c.clear_pkce_cookie.clears_cookie()
            &&& c.session_cookie.name@ == SESSION_COOKIE@
            &&& c.session_cookie.http_only
            &&& c.session_cookie.secure == secure
            &&& c.session_cookie.same_site == spec_same_site(secure)
            &&& c.session_cookie.max_age_seconds == Some(SESSION_COOKIE_SECONDS)
            &&& c.session_cookie.value@ == jwt_token_of(
                uuid_chars(user_id.0),
                now + SESSION_LIFETIME_SECONDS,
                signer.keys_view()[0],
            )
            &&& jwt_wellformed(c.session_cookie.value@)
            &&& jwt_sig_ok(c.session_cookie.value@, signer.keys_view()[0])
            &&& jwt_payload_of(c.session_cookie.value@) == Some(
                (uuid_chars(user_id.0), (now + SESSION_LIFETIME_SECONDS) as int),
            )
            &&& csrf_cookie_shape(c.csrf_cookie, secure)
            &&& c.csrf_cookie.value@ == c.csrf_token@
            &&& c.csrf_token@.len() == 43
            &&& crate::csrf::csrf_token_encoding(c.csrf_token@)
            &&& c.redirect_url@ == frontend_origin@
        }),
{
    let token = match signer.issue_at(user_id, now) {
        Ok(t) => t,
        Err(e) => {
            return Err(e);
        },
    };
    let (csrf_cookie, csrf_token) = issue_csrf_cookie(secure);
    Ok(
        CallbackResponse {
            clear_state_cookie: expire_cookie(OAUTH_STATE_COOKIE, secure, true),
            clear_pkce_cookie: expire_cookie(OAUTH_PKCE_COOKIE, secure, true),
            session_cookie: build_session_cookie(SESSION_COOKIE, token.as_str(), secure),
            csrf_cookie,
            csrf_token,
            redirect_url: frontend_origin.clone(),
        },
    )
}

/// Law: the session cookie a successful callback sets verifies under the
/// same signer to the established user at any instant before its
/// expiration — what [`callback_establish`] promises of the cookie value is
/// exactly what [`SessionSigner::verify_at`] demands to accept it.
pub proof fn lemma_established_session_verifies(
    token: Seq<char>,
    keys: Seq<Seq<char>>,
    user: UserId,
    exp: int,
    later: i64,
)
    requires
        keys.len() >= 1,
        jwt_wellformed(token),
        jwt_sig_ok(token, keys[0]),
        jwt_payload_of(token) == Some((uuid_chars(user.0), exp)),
        exp > later,
    ensures
        verify_accepts(token, keys, later),
{
    crate::ids::lemma_uuid_round_trip(user.0);
    assert(crate::session::sig_matches_any(token, keys)) by {
        assert(jwt_sig_ok(token, keys[0]));
    }
}

/// The clearing directives a failed callback sends: once both transient
/// cookies have been read, they are deleted on the failure path exactly as
/// on the success path, so an abandoned attempt leaves no custody cookies
/// behind.
pub fn clear_transient_cookies(secure: bool) -> (r: (CookieSpec, CookieSpec))
    ensures
        r.0.name@ == OAUTH_STATE_COOKIE@,
        r.0.clears_cookie(),
        r.0.http_only,
        r.0.secure == secure,
        r.0.same_site == spec_same_site(secure),
        r.1.name@ == OAUTH_PKCE_COOKIE@,
        r.1.clears_cookie(),
        r.1.http_only,
        r.1.secure == secure,
        r.1.same_site == spec_same_site(secure),
{
    (
        expire_cookie(OAUTH_STATE_COOKIE, secure, true),
        expire_cookie(OAUTH_PKCE_COOKIE, secure, true),
    )
}

/// What a successful logout sends: both credential-bearing cookies cleared
/// and, best-effort, the departing session's subject for audit logging.
#[derive(Debug)]
pub struct LogoutResponse {
    pub clear_session_cookie: CookieSpec,
    pub clear_csrf_cookie: CookieSpec,
    pub audited_user: Option<UserId>,
}

/// Logout is a mutating action: it demands CSRF verification, and fails
/// closed without touching the session when that fails. On success it
/// clears the session and CSRF cookies; the outgoing session is verified
/// only best-effort, for audit logging, and a failure there never blocks
/// the logout.
pub fn logout_response(
    session_cookie: Option<&String>,
    csrf_cookie: Option<&String>,
    csrf_header: &HeaderField,
    signer: &SessionSigner,
    now: i64,
    secure: bool,
) -> (r: Result<LogoutResponse, AppError>)
    requires
        signer.wf(),
    ensures
        r is Ok <==> (csrf_header matches HeaderField::Text(t) && csrf_cookie matches Some(c)
            && c@ == t@),
        r matches Err(e) ==> e matches AppError::Forbidden(m),
        r matches Ok(l) ==> ({
            &&& l.clear_session_cookie.name@ == SESSION_COOKIE@
            &&& l.clear_session_cookie.clears_cookie()
            &&& l.clear_session_cookie.http_only
            &&& l.clear_csrf_cookie.name@ == crate::csrf::CSRF_COOKIE@
            &&& l.clear_csrf_cookie.clears_cookie()
            &&& !l.clear_csrf_cookie.http_only
            &&& (session_cookie is None ==> l.audited_user is None)
            &&& (session_cookie matches Some(t) ==> ((l.audited_user is Some) <==> verify_accepts(
                t@,
                signer.keys_view(),
                now,
            )))
            &&& (session_cookie matches Some(t) ==> (l.audited_user matches Some(u) ==> (
            jwt_payload_of(t@) matches Some((s, e)) && parse_uuid(s) == Some(u.0))))
        }),
{
    match verify_csrf(csrf_cookie, csrf_header) {
        Ok(()) => (),
        Err(e) => {
            return Err(e);
        },
    }
    let audited_user = match session_cookie {
        None => None,
        Some(t) => match signer.verify_at(t, now) {
            Ok(claims) => Some(claims.sub),
            Err(_) => None,
        },
    };
    Ok(
        LogoutResponse {
            clear_session_cookie: expire_cookie(SESSION_COOKIE, secure, true),
            clear_csrf_cookie: expire_csrf_cookie(secure),
            audited_user,
        },
    )
}

/// The authenticated subject of a request: the session cookie must be
/// present and carry a credential that verifies; anything else is the
/// generic unauthenticated failure or the credential's own failure class.
pub fn session_user_id(
    session_cookie: Option<&String>,
    signer: &SessionSigner,
    now: i64,
) -> (r: Result<UserId, AppError>)
    requires
        signer.wf(),
    ensures
        session_cookie is None ==> (r matches Err(e) && e == AppError::Unauthorized),
        session_cookie matches Some(t) ==> (r is Ok <==> verify_accepts(
            t@,
            signer.keys_view(),
            now,
        )),
        session_cookie matches Some(t) ==> (r matches Ok(u) ==> (jwt_payload_of(t@) matches
            Some((s, e)) && parse_uuid(s) == Some(u.0))),
        session_cookie matches Some(t) ==> ((r matches Err(e) && e == AppError::Unauthorized)
            <==> verify_unsigned(t@, signer.keys_view())),
        session_cookie matches Some(t) ==> ((r matches Err(e) && e matches AppError::Token(m)
            && m@ == "expired session token"@) <==> crate::session::verify_expired(
            t@,
            signer.keys_view(),
            now,
        )),
        session_cookie matches Some(t) ==> ((r matches Err(e) && e matches AppError::Token(m)
            && m@ == "malformed session token"@) <==> crate::session::verify_malformed(
            t@,
            signer.keys_view(),
        )),
{
    let t = match session_cookie {
        None => {
            return Err(AppError::Unauthorized);
        },
        Some(t) => t,
    };
    match signer.verify_at(t, now) {
        Ok(claims) => Ok(claims.sub),
        Err(e) => Err(e),
    }
}

} // verus!

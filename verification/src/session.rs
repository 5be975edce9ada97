//! Stateless session credentials with multi-key rotation.
//!
//! A credential is a compact signed token carrying the user's internal
//! identifier and an absolute expiration, twelve hours after issuance. The
//! signer keeps an ordered, non-empty list of shared secrets: the first signs
//! every new token, and all of them remain valid for verification, so that a
//! new primary key can be introduced without invalidating tokens signed under
//! a retained older key. Verification classifies failures: a token that no
//! configured key signed is distinguishable from a malformed or expired one.

use vstd::prelude::*;
use vstd::string::StringExecFns;
use crate::errors::AppError;
use crate::ids::{format_user_id, parse_user_id, parse_uuid, uuid_chars, UserId};
use crate::text::{from_chars, to_chars};

verus! {

/// Lifetime of a session credential, in seconds: twelve hours.
pub const SESSION_LIFETIME_SECONDS: i64 = 43200;

/// The ephemeral content of one verified session credential.
#[derive(Debug, Clone, Copy, PartialEq, Eq, Structural)]
pub struct SessionClaims {
    pub sub: UserId,
    pub exp: i64,
}

/// The token that signing the claims `(sub, exp)` with `secret` produces:
/// a deterministic function of its three arguments.
pub uninterp spec fn jwt_token_of(sub: Seq<char>, exp: int, secret: Seq<char>) -> Seq<char>;

/// The token has the structure the decoder requires before it compares
/// signatures.
pub uninterp spec fn jwt_wellformed(token: Seq<char>) -> bool;

/// The token's signature matches the given secret.
pub uninterp spec fn jwt_sig_ok(token: Seq<char>, secret: Seq<char>) -> bool;

/// The subject string and expiration that the token's payload carries, when
/// the payload decodes to claims with a string subject and an expiration
/// that fits a 64-bit integer.
pub uninterp spec fn jwt_payload_of(token: Seq<char>) -> Option<(Seq<char>, int)>;

enum DecodeOutcome {
    Valid(String, i64),
    BadSignature,
    Malformed,
}

/// What the decoder's outcome says about the token and the secret.
spec fn decode_outcome_of(r: DecodeOutcome, token: Seq<char>, secret: Seq<char>) -> bool {
    &&& (!jwt_wellformed(token) ==> r is Malformed)
    &&& (jwt_wellformed(token) && !jwt_sig_ok(token, secret) ==> r is BadSignature)
    &&& (jwt_wellformed(token) && jwt_sig_ok(token, secret) && jwt_payload_of(token) is None
        ==> r is Malformed)
    &&& (jwt_wellformed(token) && jwt_sig_ok(token, secret) ==> (jwt_payload_of(token) matches
        Some((s, e)) ==> (r matches DecodeOutcome::Valid(sub, exp) && sub@ == s && exp == e)))
}

/// Relies on jsonwebtoken::encode with the HS256 algorithm: HMAC signing is
/// a deterministic function of claims and secret, it accepts any secret
/// length and a JSON-object claims value, so encoding cannot fail; and
/// jsonwebtoken::decode with the same secret accepts the signature and
/// recovers the claims.
#[verifier::external_body]
fn jwt_encode_session(sub: &String, exp: i64, secret: &String) -> (r: Result<String, String>)
    ensures
        r is Ok,
        r matches Ok(t) ==> (t@ == jwt_token_of(sub@, exp as int, secret@) && jwt_wellformed(t@)
            && jwt_sig_ok(t@, secret@) && jwt_payload_of(t@) == Some((sub@, exp as int))),
{
    let key = jsonwebtoken::EncodingKey::from_secret(secret.as_bytes());
    let mut claims = serde_json::Map::new();
    claims.insert("sub".to_string(), serde_json::Value::String(sub.clone()));
    claims.insert("exp".to_string(), serde_json::Value::from(exp));
    let header = jsonwebtoken::Header::new(jsonwebtoken::Algorithm::HS256);
    jsonwebtoken::encode(&header, &serde_json::Value::Object(claims), &key).map_err(|e| {
        e.to_string()
    })
}

/// Relies on jsonwebtoken::decode with the HS256 algorithm and expiration
/// validation turned off: the decoder checks the token's structure, then the
/// signature, then deserializes the payload; only a signature mismatch
/// reports `InvalidSignature`.
#[verifier::external_body]
fn jwt_decode_session(token: &String, secret: &String) -> (r: DecodeOutcome)
    ensures
        decode_outcome_of(r, token@, secret@),
{
    let key = jsonwebtoken::DecodingKey::from_secret(secret.as_bytes());
    let mut validation = jsonwebtoken::Validation::new(jsonwebtoken::Algorithm::HS256);
    validation.validate_exp = false;
    validation.required_spec_claims = std::collections::HashSet::new();
    match jsonwebtoken::decode::<serde_json::Value>(token, &key, &validation) {
        Ok(d) => match (d.claims.get("sub").and_then(|x| x.as_str()), d.claims.get("exp").and_then(|x| x.as_i64())) {
            (Some(s), Some(e)) => DecodeOutcome::Valid(s.to_string(), e),
            _ => DecodeOutcome::Malformed,
        },
        Err(e) if matches!(e.kind(), jsonwebtoken::errors::ErrorKind::InvalidSignature) => DecodeOutcome::BadSignature,
        Err(_) => DecodeOutcome::Malformed,
    }
}

/// Relies on time::OffsetDateTime::now_utc: the clock's reading at the call;
/// nothing is assumed of the value.
#[verifier::external_body]
pub fn now_unix_seconds() -> i64 {
    time::OffsetDateTime::now_utc().unix_timestamp()
}

/// Some configured key signed the token.
pub open spec fn sig_matches_any(token: Seq<char>, keys: Seq<Seq<char>>) -> bool {
    exists|i: int| 0 <= i < keys.len() && jwt_sig_ok(token, #[trigger] keys[i])
}

/// Verification accepts: structure, some key's signature, a parseable
/// subject, and an expiration strictly in the future.
pub open spec fn verify_accepts(token: Seq<char>, keys: Seq<Seq<char>>, now: i64) -> bool {
    &&& jwt_wellformed(token)
    &&& sig_matches_any(token, keys)
    &&& jwt_payload_of(token) matches Some((s, e)) && parse_uuid(s) is Some && e > now
}

/// The token was signed by a configured key but its expiration has passed.
pub open spec fn verify_expired(token: Seq<char>, keys: Seq<Seq<char>>, now: i64) -> bool {
    &&& jwt_wellformed(token)
    &&& sig_matches_any(token, keys)
    &&& jwt_payload_of(token) matches Some((s, e)) && parse_uuid(s) is Some && e <= now
}

/// The token is structurally sound but no configured key signed it.
pub open spec fn verify_unsigned(token: Seq<char>, keys: Seq<Seq<char>>) -> bool {
    jwt_wellformed(token) && !sig_matches_any(token, keys)
}

/// The token cannot carry claims: broken structure, or a payload without a
/// usable subject and expiration.
pub open spec fn verify_malformed(token: Seq<char>, keys: Seq<Seq<char>>) -> bool {
    ||| !jwt_wellformed(token)
    ||| (sig_matches_any(token, keys) && match jwt_payload_of(token) {
        Some((s, e)) => parse_uuid(s) is None,
        None => true,
    })
}

/// Issues and verifies signed, expiring session tokens, supporting multiple
/// concurrently valid verification secrets for rotation.
#[derive(Debug, Clone)]
pub struct SessionSigner {
    keys: Vec<String>,
}

impl SessionSigner {
    /// The configured secrets, in order; the first is the signing key.
    pub closed spec fn keys_view(self) -> Seq<Seq<char>> {
        self.keys@.map_values(|s: String| s@)
    }

    /// Well-formedness: at least one secret.
    pub closed spec fn wf(self) -> bool {
        self.keys@.len() >= 1
    }

    /// A signer over the given ordered secrets; fails exactly when the
    /// sequence is empty.
    pub fn new(secrets: &Vec<String>) -> (r: Result<SessionSigner, AppError>)
        ensures
            r is Ok <==> secrets@.len() >= 1,
            r matches Ok(s) ==> s.wf() && s.keys_view() == secrets@.map_values(|x: String| x@),
            r matches Err(e) ==> e matches AppError::Config(m) && m@
                == "no session signing keys configured"@,
    {
        if secrets.len() == 0 {
            return Err(AppError::Config(String::from_str("no session signing keys configured")));
        }
        let mut keys: Vec<String> = Vec::new();
        let mut i: usize = 0;
        #[verifier::loop_isolation(false)]
        while i < secrets.len()
            invariant
                i <= secrets@.len(),
                keys@.len() == i,
                forall|j: int| 0 <= j < i ==> #[trigger] keys@[j]@ == secrets@[j]@,
            decreases secrets@.len() - i,
        {
            keys.push(secrets[i].clone());
            i += 1;
        }
        let s = SessionSigner { keys };
        proof {
            assert(s.keys_view() =~= secrets@.map_values(|x: String| x@));
        }
        Ok(s)
    }

    /// Builds claims `{subject, now + 12 h}` and signs them with the first
    /// secret. Succeeds whenever the expiration is representable; clock
    /// overflow alone is an internal error.
    pub fn issue_at(&self, user_id: UserId, now: i64) -> (r: Result<String, AppError>)
        requires
            self.wf(),
        ensures
            r is Ok <==> now <= i64::MAX - SESSION_LIFETIME_SECONDS,
            now > i64::MAX - SESSION_LIFETIME_SECONDS ==> r == Err::<String, AppError>(
                AppError::Internal,
            ),
            r matches Ok(t) ==> (t@ == jwt_token_of(
                uuid_chars(user_id.0),
                now + SESSION_LIFETIME_SECONDS,
                self.keys_view()[0],
            ) && jwt_wellformed(t@) && jwt_sig_ok(t@, self.keys_view()[0]) && jwt_payload_of(t@)
                == Some((uuid_chars(user_id.0), (now + SESSION_LIFETIME_SECONDS) as int))),
    {
        if now > i64::MAX - SESSION_LIFETIME_SECONDS {
            return Err(AppError::Internal);
        }
        let exp = now + SESSION_LIFETIME_SECONDS;
        let sub = from_chars(&format_user_id(user_id));
        match jwt_encode_session(&sub, exp, &self.keys[0]) {
            Ok(t) => Ok(t),
            Err(_) => Err(AppError::Internal),
        }
    }

    /// Issues a credential expiring twelve hours from the current clock
    /// reading; fails only when that reading overflows the expiration.
    pub fn issue(&self, user_id: UserId) -> (r: Result<String, AppError>)
        requires
            self.wf(),
        ensures
            r matches Err(e) ==> e == AppError::Internal,
            r matches Ok(t) ==> exists|e: int|
                {
                    &&& t@ == #[trigger] jwt_token_of(uuid_chars(user_id.0), e, self.keys_view()[0])
                    &&& jwt_wellformed(t@)
                    &&& jwt_sig_ok(t@, self.keys_view()[0])
                    &&& jwt_payload_of(t@) == Some((uuid_chars(user_id.0), e))
                },
    {
        let now = now_unix_seconds();
        let r = self.issue_at(user_id, now);
        proof {
            if r is Ok && now <= i64::MAX - SESSION_LIFETIME_SECONDS {
                assert(r->Ok_0@ == jwt_token_of(
                    uuid_chars(user_id.0),
                    now + SESSION_LIFETIME_SECONDS,
                    self.keys_view()[0],
                ));
            }
        }
        r
    }

    /// Tries every configured secret in order. A signature mismatch advances
    /// to the next key; a malformed token stops at once; a token whose
    /// signature a key accepts is then checked for a parseable subject and an
    /// unexpired `exp`. When no key matches, the result is the generic
    /// unauthenticated failure, distinguishable from the token-format and
    /// expiration failures.
    #[verifier::loop_isolation(false)]
    pub fn verify_at(&self, token: &String, now: i64) -> (r: Result<SessionClaims, AppError>)
        requires
            self.wf(),
        ensures
            r is Ok <==> verify_accepts(token@, self.keys_view(), now),
            r matches Ok(c) ==> jwt_payload_of(token@) matches Some((s, e)) && parse_uuid(s)
                == Some(c.sub.0) && c.exp == e,
            (r matches Err(e) && e == AppError::Unauthorized) <==> verify_unsigned(
                token@,
                self.keys_view(),
            ),
            (r matches Err(e) && e matches AppError::Token(m) && m@ == "expired session token"@)
                <==> verify_expired(token@, self.keys_view(), now),
            (r matches Err(e) && e matches AppError::Token(m) && m@ == "malformed session token"@)
                <==> verify_malformed(token@, self.keys_view()),
    {
        proof {
            reveal_strlit("expired session token");
            reveal_strlit("malformed session token");
            assert("expired session token"@.len() == 21);
            assert("malformed session token"@.len() == 23);
            assert("expired session token"@ != "malformed session token"@);
        }
        let ghost keys = self.keys_view();
        let mut i: usize = 0;
        while i < self.keys.len()
            invariant
                i <= keys.len(),
                keys.len() == self.keys@.len(),
                forall|j: int| 0 <= j < i ==> !jwt_sig_ok(token@, #[trigger] keys[j]),
                i > 0 ==> jwt_wellformed(token@),
            decreases keys.len() - i,
        {
            assert(keys[i as int] == self.keys@[i as int]@);
            match jwt_decode_session(token, &self.keys[i]) {
                DecodeOutcome::Valid(sub, exp) => {
                    assert(jwt_wellformed(token@) && jwt_sig_ok(token@, keys[i as int]));
                    assert(jwt_payload_of(token@) == Some((sub@, exp as int)));
                    assert(sig_matches_any(token@, keys));
                    let sub_chars = to_chars(sub.as_str());
                    match parse_user_id(&sub_chars) {
                        Some(uid) => {
                            proof {
                                assert(sub_chars@ == sub@);
                                assert(parse_uuid(sub@) == Some(uid.0));
                            }
                            if exp > now {
                                return Ok(SessionClaims { sub: uid, exp });
                            } else {
                                return Err(
                                    AppError::Token(String::from_str("expired session token")),
                                );
                            }
                        },
                        None => {
                            proof {
                                assert(sub_chars@ == sub@);
                                assert(parse_uuid(sub@) is None);
                            }
                            return Err(
                                AppError::Token(String::from_str("malformed session token")),
                            );
                        },
                    }
                },
                DecodeOutcome::BadSignature => {
                    assert(jwt_wellformed(token@) && !jwt_sig_ok(token@, keys[i as int]));
                },
                DecodeOutcome::Malformed => {
                    proof {
                        if jwt_wellformed(token@) {
                            assert(jwt_sig_ok(token@, keys[i as int]));
                            assert(sig_matches_any(token@, keys));
                            assert(verify_malformed(token@, keys));
                        }
                    }
                    return Err(AppError::Token(String::from_str("malformed session token")));
                },
            }
            i += 1;
        }
        proof {
            assert(jwt_wellformed(token@) && !sig_matches_any(token@, keys));
        }
        Err(AppError::Unauthorized)
    }

    /// Verifies against the current clock reading.
    pub fn verify(&self, token: &String) -> (r: Result<SessionClaims, AppError>)
        requires
            self.wf(),
        ensures
            r matches Ok(c) ==> {
                &&& jwt_wellformed(token@)
                &&& sig_matches_any(token@, self.keys_view())
                &&& jwt_payload_of(token@) matches Some((s, e)) && parse_uuid(s) == Some(c.sub.0)
                    && c.exp == e
            },
            r matches Err(e) && e == AppError::Unauthorized ==> verify_unsigned(
                token@,
                self.keys_view(),
            ),
    {
        let now = now_unix_seconds();
        self.verify_at(token, now)
    }
}

/// Law: a token with sound structure, a future expiration and a parseable
/// subject verifies successfully under any key set that contains the signing
/// key at any position — the primary or a retained older key.
pub proof fn lemma_rotated_key_accepted(
    token: Seq<char>,
    keys: Seq<Seq<char>>,
    i: int,
    now: i64,
)
    requires
        0 <= i < keys.len(),
        jwt_wellformed(token),
        jwt_sig_ok(token, keys[i]),
        jwt_payload_of(token) matches Some((s, e)) && parse_uuid(s) is Some && e > now,
    ensures
        verify_accepts(token, keys, now),
{
    assert(sig_matches_any(token, keys));
}

/// Law: an expired token signed by a configured key never classifies as
/// "not signed by us", and conversely: the expiration failure and the
/// unauthenticated failure are mutually exclusive.
pub proof fn lemma_expired_distinct_from_unsigned(
    token: Seq<char>,
    keys: Seq<Seq<char>>,
    now: i64,
)
    ensures
        !(verify_expired(token, keys, now) && verify_unsigned(token, keys)),
        !(verify_expired(token, keys, now) && verify_accepts(token, keys, now)),
{
}

} // verus!

//! The process configuration the core reads.
//!
//! Reading the environment is an external concern; what the core owns is the
//! shape of the loaded values and the two configuration rules with security
//! content: how the signing-key list is parsed and validated, and when
//! insecure cookies are permitted.

use vstd::prelude::*;
use vstd::string::StringExecFns;
use crate::errors::AppError;
use crate::text::{from_chars, split_on, split_vec, to_chars, trim_spec, trim_vec, TrimClass};

verus! {

/// Every setting the authentication core and its transport read.
#[derive(Debug, Clone)]
pub struct AppConfig {
    pub database_url: String,
    pub session_signing_keys: Vec<String>,
    pub app_base_url: String,
    pub github_client_id: String,
    pub github_client_secret: String,
    pub frontend_origin: String,
    pub cookie_secure: bool,
    pub port: u16,
    pub auth_rate_limit_per_minute: u32,
    pub auth_rate_limit_burst: u32,
    pub allow_insecure_cookies: bool,
}

/// The views of a vector of strings.
pub open spec fn string_views(vs: Seq<String>) -> Seq<Seq<char>> {
    vs.map_values(|s: String| s@)
}

/// The parts that are non-empty, in order.
pub open spec fn nonempty_parts(parts: Seq<Seq<char>>) -> Seq<Seq<char>>
    decreases parts.len(),
{
    if parts.len() == 0 {
        Seq::<Seq<char>>::empty()
    } else {
        let rest = nonempty_parts(parts.skip(1));
        if parts[0].len() == 0 {
            rest
        } else {
            seq![parts[0]] + rest
        }
    }
}

/// A comma-separable key list: split at commas, each entry trimmed, empty
/// entries dropped.
pub open spec fn parsed_keys(raw: Seq<char>) -> Seq<Seq<char>> {
    nonempty_parts(
        split_on(raw, ',').map_values(|p: Seq<char>| trim_spec(TrimClass::Whitespace, p)),
    )
}

/// Every key is long enough for HMAC signing.
pub open spec fn keys_long_enough(keys: Seq<Seq<char>>) -> bool {
    forall|i: int| 0 <= i < keys.len() ==> (#[trigger] keys[i]).len() >= 32
}

proof fn lemma_nonempty_parts_push(parts: Seq<Seq<char>>, x: Seq<char>)
    ensures
        nonempty_parts(parts.push(x)) == nonempty_parts(parts) + (if x.len() == 0 {
            Seq::<Seq<char>>::empty()
        } else {
            seq![x]
        }),
    decreases parts.len(),
{
    if parts.len() == 0 {
        assert(parts.push(x)[0] == x);
        assert(parts.push(x).skip(1) =~= Seq::<Seq<char>>::empty());
        assert(nonempty_parts(Seq::<Seq<char>>::empty()) == Seq::<Seq<char>>::empty());
        if x.len() == 0 {
            assert(nonempty_parts(parts.push(x)) =~~= nonempty_parts(parts)
                + Seq::<Seq<char>>::empty());
        } else {
            assert(nonempty_parts(parts.push(x)) =~~= nonempty_parts(parts) + seq![x]);
        }
    } else {
        assert(parts.push(x)[0] == parts[0]);
        assert(parts.push(x).skip(1) =~= parts.skip(1).push(x));
        lemma_nonempty_parts_push(parts.skip(1), x);
        if x.len() == 0 {
            assert(nonempty_parts(parts.push(x)) =~~= nonempty_parts(parts)
                + Seq::<Seq<char>>::empty());
        } else {
            assert(nonempty_parts(parts.push(x)) =~~= nonempty_parts(parts) + seq![x]);
        }
    }
}

/// Parses and validates the signing-key configuration: a comma-separable
/// list, or one legacy single-key value used as-is. The list must be
/// non-empty after trimming, and every key must be at least thirty-two
/// characters.
#[verifier::loop_isolation(false)]
pub fn parse_signing_keys(raw: Option<&String>, legacy: Option<&String>) -> (r: Result<
    Vec<String>,
    AppError,
>)
    ensures
        raw is None && legacy is None ==> (r matches Err(e) && e matches AppError::Config(m)
            && m@ == "SESSION_SIGNING_KEY or SESSION_SIGNING_KEYS missing"@),
        raw matches Some(rv) ==> ({
            let keys = parsed_keys(rv@);
            &&& (r is Ok <==> keys.len() >= 1 && keys_long_enough(keys))
            &&& (r matches Ok(v) ==> string_views(v@) == keys)
            &&& (keys.len() == 0 ==> (r matches Err(e) && e matches AppError::Config(m) && m@
                == "no session signing keys provided"@))
            &&& (keys.len() >= 1 && !keys_long_enough(keys) ==> (r matches Err(e) && e matches
                AppError::Config(m) && m@
                == "all session signing keys must be at least 32 characters for HMAC signing"@))
        }),
        raw is None ==> (legacy matches Some(k) ==> ({
            &&& (r is Ok <==> k@.len() >= 32)
            &&& (r matches Ok(v) ==> string_views(v@) == seq![k@])
            &&& (k@.len() < 32 ==> (r matches Err(e) && e matches AppError::Config(m) && m@
                == "all session signing keys must be at least 32 characters for HMAC signing"@))
        })),
{
    let keys: Vec<String> = match (raw, legacy) {
        (Some(rv), _) => {
            let chars = to_chars(rv.as_str());
            let parts = split_vec(&chars, ',');
            let ghost mapped = split_on(rv@, ',').map_values(
                |p: Seq<char>| trim_spec(TrimClass::Whitespace, p),
            );
            let mut keys: Vec<String> = Vec::new();
            let mut i: usize = 0;
            while i < parts.len()
                invariant
                    crate::text::views_of(parts@) == split_on(rv@, ','),
                    mapped == split_on(rv@, ',').map_values(
                        |p: Seq<char>| trim_spec(TrimClass::Whitespace, p),
                    ),
                    i <= parts@.len(),
                    string_views(keys@) == nonempty_parts(mapped.take(i as int)),
                decreases parts@.len() - i,
            {
                assert(crate::text::views_of(parts@)[i as int] == parts@[i as int]@);
                let trimmed = trim_vec(&parts[i], TrimClass::Whitespace);
                proof {
                    assert(mapped[i as int] == trim_spec(
                        TrimClass::Whitespace,
                        parts@[i as int]@,
                    ));
                    lemma_nonempty_parts_push(mapped.take(i as int), mapped[i as int]);
                    assert(mapped.take(i as int).push(mapped[i as int]) =~= mapped.take(
                        i + 1 as int,
                    ));
                }
                if trimmed.len() > 0 {
                    keys.push(from_chars(&trimmed));
                }
                assert(string_views(keys@) =~~= nonempty_parts(mapped.take(i + 1 as int)));
                i += 1;
            }
            proof {
                assert(mapped.take(mapped.len() as int) =~= mapped);
            }
            keys
        },
        (None, Some(k)) => {
            let mut keys: Vec<String> = Vec::new();
            keys.push(k.clone());
            proof {
                assert(string_views(keys@) =~~= seq![k@]);
            }
            keys
        },
        (None, None) => {
            return Err(
                AppError::Config(
                    String::from_str("SESSION_SIGNING_KEY or SESSION_SIGNING_KEYS missing"),
                ),
            );
        },
    };
    if keys.len() == 0 {
        return Err(AppError::Config(String::from_str("no session signing keys provided")));
    }
    let mut j: usize = 0;
    while j < keys.len()
        invariant
            j <= keys@.len(),
            forall|t: int| 0 <= t < j ==> (#[trigger] string_views(keys@)[t]).len() >= 32,
        decreases keys@.len() - j,
    {
        let key_chars = to_chars(keys[j].as_str());
        if key_chars.len() < 32 {
            assert(string_views(keys@)[j as int].len() < 32);
            return Err(
                AppError::Config(
                    String::from_str(
                        "all session signing keys must be at least 32 characters for HMAC signing",
                    ),
                ),
            );
        }
        j += 1;
    }
    proof {
        assert(keys_long_enough(string_views(keys@)));
        assert(string_views(keys@).len() >= 1);
        assert(string_views(keys@)[0].len() >= 32);
    }
    Ok(keys)
}

/// Whether the base URL begins with the secure scheme.
pub open spec fn spec_is_https(url: Seq<char>) -> bool {
    url.len() >= 8 && url.subrange(0, 8) == "https://"@
}

/// Decides the deployment's cookie security: cookies are secure exactly when
/// the base URL uses HTTPS, and an insecure base URL is a startup-fatal
/// configuration error unless insecure cookies were explicitly allowed.
pub fn cookie_security_policy(app_base_url: &String, allow_insecure: bool) -> (r: Result<
    bool,
    AppError,
>)
    ensures
        r matches Ok(secure) ==> secure == spec_is_https(app_base_url@),
        r is Ok <==> (spec_is_https(app_base_url@) || allow_insecure),
        r matches Err(e) ==> e matches AppError::Config(m),
{
    let chars = to_chars(app_base_url.as_str());
    let prefix = to_chars("https://");
    proof {
        reveal_strlit("https://");
        assert(prefix@.len() == 8);
    }
    let secure = crate::text::starts_with_chars(&chars, &prefix);
    proof {
        if secure {
            assert(chars@.subrange(0, 8) == "https://"@);
        }
    }
    if !secure && !allow_insecure {
        return Err(
            AppError::Config(
                String::from_str(
                    "APP_BASE_URL must use https when issuing SameSite=None cookies; set ALLOW_INSECURE_COOKIES=true only for local development",
                ),
            ),
        );
    }
    Ok(secure)
}

} // verus!

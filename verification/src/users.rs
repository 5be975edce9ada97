//! User records, their public projection, and the authenticated-request
//! context.
//!
//! The user directory itself is an external collaborator; the core only
//! shapes what is written to it (the normalized upsert payload) and what is
//! read from it, and projects a record to the fields a client may see.

use vstd::prelude::*;
use crate::errors::AppError;
use crate::ids::UserId;
use crate::net::IpAddress;
use crate::text::to_chars;

verus! {

/// A user record, as the external user directory holds it. Timestamps are
/// Unix seconds.
#[derive(Debug, Clone)]
pub struct User {
    pub id: UserId,
    pub github_id: i64,
    pub login: String,
    pub name: Option<String>,
    pub avatar_url: Option<String>,
    pub email: Option<String>,
    pub role: String,
    pub created_at: i64,
    pub updated_at: i64,
}

/// The fields of a user that are serialized to clients: no provider
/// credentials, no timestamps.
#[derive(Debug, Clone)]
pub struct PublicUser {
    pub id: UserId,
    pub login: String,
    pub name: Option<String>,
    pub avatar_url: Option<String>,
    pub email: Option<String>,
    pub role: String,
}

impl From<User> for PublicUser {
    fn from(value: User) -> (r: PublicUser) {
        PublicUser {
            id: value.id,
            login: value.login,
            name: value.name,
            avatar_url: value.avatar_url,
            email: value.email,
            role: value.role,
        }
    }
}

impl vstd::std_specs::convert::FromSpecImpl<User> for PublicUser {
    open spec fn obeys_from_spec() -> bool {
        true
    }

    open spec fn from_spec(v: User) -> PublicUser {
        PublicUser {
            id: v.id,
            login: v.login,
            name: v.name,
            avatar_url: v.avatar_url,
            email: v.email,
            role: v.role,
        }
    }
}

/// The profile the identity provider reports for an authenticated user.
#[derive(Debug, Clone)]
pub struct GitHubProfile {
    pub id: i64,
    pub login: String,
    pub name: Option<String>,
    pub avatar_url: Option<String>,
    pub email: Option<String>,
}

/// What lower-casing a string returns: a function of the characters alone.
pub uninterp spec fn lower_of(s: Seq<char>) -> Seq<char>;

/// Relies on str::to_lowercase: the result depends on the characters alone.
#[verifier::external_body]
fn lowercase(s: &String) -> (r: String)
    ensures
        r@ == lower_of(s@),
{
    s.to_lowercase()
}

/// The upsert payload for a reported profile: identical, except that an
/// email address is lower-cased on write.
pub fn normalize_profile(p: &GitHubProfile) -> (r: GitHubProfile)
    ensures
        r.id == p.id,
        r.login@ == p.login@,
        r.name is Some <==> p.name is Some,
        p.name matches Some(n) ==> (r.name matches Some(m) && m@ == n@),
        r.avatar_url is Some <==> p.avatar_url is Some,
        p.avatar_url matches Some(a) ==> (r.avatar_url matches Some(b) && b@ == a@),
        r.email is Some <==> p.email is Some,
        p.email matches Some(e) ==> (r.email matches Some(l) && l@ == lower_of(e@)),
{
    GitHubProfile {
        id: p.id,
        login: p.login.clone(),
        name: match &p.name {
            Some(n) => Some(n.clone()),
            None => None,
        },
        avatar_url: match &p.avatar_url {
            Some(a) => Some(a.clone()),
            None => None,
        },
        email: match &p.email {
            Some(e) => Some(lowercase(e)),
            None => None,
        },
    }
}

/// Character-wise string equality.
pub fn str_eq(a: &str, b: &str) -> (r: bool)
    ensures
        r == (a@ == b@),
{
    let av = to_chars(a);
    let bv = to_chars(b);
    if av.len() != bv.len() {
        return false;
    }
    let mut i: usize = 0;
    #[verifier::loop_isolation(false)]
    while i < av.len()
        invariant
            i <= av@.len(),
            forall|j: int| 0 <= j < i ==> av@[j] == bv@[j],
        decreases av@.len() - i,
    {
        if av[i] != bv[i] {
            return false;
        }
        i += 1;
    }
    proof {
        assert(a@ =~= b@);
    }
    true
}

/// The authenticated identity of a request, with the resolved client
/// address that audit logging uses.
pub struct CurrentUser {
    user: User,
    client_ip: Option<IpAddress>,
}

impl CurrentUser {
    pub closed spec fn spec_user(self) -> User {
        self.user
    }

    pub closed spec fn spec_client_ip(self) -> Option<IpAddress> {
        self.client_ip
    }

    pub fn new(user: User, client_ip: Option<IpAddress>) -> (r: CurrentUser)
        ensures
            r.spec_user() == user,
            r.spec_client_ip() == client_ip,
    {
        CurrentUser { user, client_ip }
    }

    /// Succeeds exactly when the user's role tag equals the demanded role;
    /// anything else is the generic unauthenticated failure.
    pub fn require_role(&self, role: &str) -> (r: Result<(), AppError>)
        ensures
            r is Ok <==> self.spec_user().role@ == role@,
            r matches Err(e) ==> e == AppError::Unauthorized,
    {
        if str_eq(self.user.role.as_str(), role) {
            Ok(())
        } else {
            Err(AppError::Unauthorized)
        }
    }

    /// The single role check the system performs.
    pub fn require_admin(&self) -> (r: Result<(), AppError>)
        ensures
            r is Ok <==> self.spec_user().role@ == "admin"@,
            r matches Err(e) ==> e == AppError::Unauthorized,
    {
        self.require_role("admin")
    }

    pub fn user(&self) -> (r: &User)
        ensures
            r == self.spec_user(),
    {
        &self.user
    }

    pub fn into_parts(self) -> (r: (User, Option<IpAddress>))
        ensures
            r.0 == self.spec_user(),
            r.1 == self.spec_client_ip(),
    {
        (self.user, self.client_ip)
    }
}

} // verus!

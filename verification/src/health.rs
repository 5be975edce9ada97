//! Liveness reporting for the unauthenticated health route.

use vstd::prelude::*;
use vstd::string::StringExecFns;

verus! {

/// The body the health route serializes.
#[derive(Debug, Clone)]
pub struct HealthStatus {
    pub status: String,
}

/// The health route's constant answer.
pub fn health() -> (r: HealthStatus)
    ensures
        r.status@ == "ok"@,
{
    HealthStatus { status: String::from_str("ok") }
}

} // verus!

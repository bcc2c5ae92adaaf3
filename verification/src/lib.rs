//! An in-memory cache for opaque string payloads with caller-chosen keys,
//! millisecond expiration times, lazy expiry sweeps, and the access-checked
//! request-mediation logic built on top of it.

pub mod cache;
pub mod init;
pub mod json;
pub mod methods;

use vstd::prelude::*;

verus! {

/// Whether an entry whose expiration time is `expires_at` has expired at
/// instant `now` (both in milliseconds). An entry expires strictly after
/// its expiration time passes.
pub open spec fn expired_at(expires_at: int, now: int) -> bool {
    now > expires_at
}

} // verus!

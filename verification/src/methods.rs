//! The request-mediation surface: token checking, the clear operation, and
//! the fetch-or-serve decision logic that consults the cache and, on a miss,
//! directs the caller to fetch and then records the response.

use vstd::prelude::*;
use std::collections::HashMap;
use crate::cache::{now_millis, swept, Cache, CacheEntry, EntryView};
use crate::json::{json_ok, parse_json};

verus! {

/// A request to remove one key from the cache, authorized by a token.
pub struct Clear {
    pub token: String,
    pub key: String,
}

/// A proxied-request description: the access token, the outbound URL, the
/// caller-chosen cache key, optional headers and body, the HTTP method, and
/// the time-to-live in seconds of the entry a fetch would store.
pub struct Request {
    pub token: String,
    pub url: String,
    pub key: String,
    pub headers: HashMap<String, String>,
    pub method: String,
    pub body: Option<String>,
    pub ttl: u64,
}

/// The HTTP methods the mediator supports for outbound fetches.
#[derive(Clone, Copy, Debug, PartialEq, Eq, Structural)]
pub enum Method {
    Get,
    Post,
}

/// How a request fails: a bad token, an unsupported method, an outbound call
/// that could not complete, or a payload that is not well-formed JSON.
#[derive(Clone, Copy, Debug, PartialEq, Eq, Structural)]
pub enum ApiError {
    Unauthorized,
    BadRequest,
    TransportFailure,
    DecodeFailure,
}

/// Whether `token` is one of the configured access tokens.
pub open spec fn has_token(tokens: Seq<String>, token: Seq<char>) -> bool {
    exists|i: int| 0 <= i < tokens.len() && tokens[i]@ == token
}

/// Checks `token` against the configured token set.
pub fn token_valid(tokens: &Vec<String>, token: &String) -> (r: bool)
    ensures
        r == has_token(tokens@, token@),
{
    let mut i: usize = 0;
    while i < tokens.len()
        invariant
            i <= tokens@.len(),
            forall|j: int| 0 <= j < i ==> tokens@[j]@ != token@,
        decreases tokens@.len() - i,
    {
        if tokens[i] == *token {
            proof {
                assert(tokens@[i as int]@ == token@);
            }
            return true;
        }
        i += 1;
    }
    false
}

/// The method named by `s`, when it is a supported one.
pub open spec fn method_of(s: Seq<char>) -> Option<Method> {
    if s == "get"@ {
        Some(Method::Get)
    } else if s == "post"@ {
        Some(Method::Post)
    } else {
        None
    }
}

/// Parses a method name; exactly "get" and "post" are supported.
pub fn parse_method(method: &String) -> (r: Option<Method>)
    ensures
        r == method_of(method@),
{
    let get_name: String = "get".to_owned();
    let post_name: String = "post".to_owned();
    if *method == get_name {
        Some(Method::Get)
    } else if *method == post_name {
        Some(Method::Post)
    } else {
        None
    }
}

/// The expiration instant of an entry stored at instant `now` (milliseconds)
/// with a time-to-live of `ttl_seconds`, clamped to the representable range.
pub open spec fn expiry_of(now: int, ttl_seconds: int) -> int {
    if now + ttl_seconds * 1000 > i64::MAX {
        i64::MAX as int
    } else {
        now + ttl_seconds * 1000
    }
}

/// Computes the expiration instant `now + ttl` seconds, saturating instead
/// of overflowing.
pub fn compute_expiry(now: i64, ttl: u64) -> (r: i64)
    ensures
        r as int == expiry_of(now as int, ttl as int),
{
    let sum: i128 = now as i128 + ttl as i128 * 1000;
    if sum > i64::MAX as i128 {
        i64::MAX
    } else {
        sum as i64
    }
}

/// What the mediator decides for one fetch-or-serve request: reject the
/// token, serve a stored payload, reject the method, or direct the caller
/// to perform the outbound fetch.
pub enum Decision {
    Unauthorized,
    Hit { data: String },
    BadRequest,
    Fetch { method: Method },
}

/// The fetch-or-serve decision at instant `now`: an invalid token is
/// rejected before any cache operation; otherwise the cache is swept and
/// consulted, a live entry is served, and on a miss the method is validated
/// and an outbound fetch directed. No decision mutates the cache beyond the
/// sweep, and a rejected token mutates nothing at all.
pub fn route_request(cache: &mut Cache, tokens: &Vec<String>, req: &Request, now: i64) -> (r:
    Decision)
    requires
        old(cache).wf(),
    ensures
        final(cache).wf(),
        (r is Unauthorized) <==> !has_token(tokens@, req.token@),
        r is Unauthorized ==> *final(cache) == *old(cache),
        !(r is Unauthorized) ==> final(cache).contents() == swept(
            old(cache).contents(),
            now as int,
        ),
        (r is Hit) <==> (has_token(tokens@, req.token@) && swept(
            old(cache).contents(),
            now as int,
        ).dom().contains(req.key@)),
        (r matches Decision::Hit { data } ==> data@ == swept(
            old(cache).contents(),
            now as int,
        )[req.key@].data && !crate::expired_at(
            swept(old(cache).contents(), now as int)[req.key@].expires_at,
            now as int,
        )),
        (r is BadRequest) <==> (has_token(tokens@, req.token@) && !swept(
            old(cache).contents(),
            now as int,
        ).dom().contains(req.key@) && method_of(req.method@) is None),
        (r is Fetch) <==> (has_token(tokens@, req.token@) && !swept(
            old(cache).contents(),
            now as int,
        ).dom().contains(req.key@) && method_of(req.method@) is Some),
        (r matches Decision::Fetch { method } ==> method_of(req.method@) == Some(method)),
{
    if !token_valid(tokens, &req.token) {
        return Decision::Unauthorized;
    }
    let hit = cache.get(&req.key, now);
    match hit {
        Some(e) => Decision::Hit { data: e.data().clone() },
        None => match parse_method(&req.method) {
            Some(m) => Decision::Fetch { method: m },
            None => Decision::BadRequest,
        },
    }
}

/// Records a fetched response body in the cache at instant `now`: the entry
/// is stored under the request's key, carries the body as its payload, the
/// request's token as its creator, and expires `ttl` seconds from `now`.
pub fn record_response(cache: &mut Cache, req: &Request, body: &String, now: i64)
    requires
        old(cache).wf(),
    ensures
        final(cache).wf(),
        final(cache).contents() == old(cache).contents().insert(
            req.key@,
            (EntryView {
                key: req.key@,
                data: body@,
                created_at: now as int,
                expires_at: expiry_of(now as int, req.ttl as int),
                created_by: req.token@,
            }),
        ),
{
    let expires = compute_expiry(now, req.ttl);
    let entry = CacheEntry::new_at(
        req.key.clone(),
        body.clone(),
        now,
        expires,
        req.token.clone(),
    );
    cache.insert(entry);
}

/// The fetch-or-serve decision at the moment of the call: the clock picks
/// the sweep instant. Whatever the clock read, a rejected token mutates
/// nothing, a served payload is the one the cache held under the key, and
/// the method is validated exactly on a miss.
pub fn handle_request(cache: &mut Cache, tokens: &Vec<String>, req: &Request) -> (r: Decision)
    requires
        old(cache).wf(),
    ensures
        final(cache).wf(),
        (r is Unauthorized) <==> !has_token(tokens@, req.token@),
        r is Unauthorized ==> *final(cache) == *old(cache),
        forall|k: Seq<char>| #[trigger] final(cache).contents().dom().contains(k) ==> old(
            cache,
        ).contents().dom().contains(k) && final(cache).contents()[k] == old(cache).contents()[k],
        (r matches Decision::Hit { data } ==> old(cache).contents().dom().contains(req.key@)
            && data@ == old(cache).contents()[req.key@].data),
        r is Hit ==> has_token(tokens@, req.token@),
        r is BadRequest ==> method_of(req.method@) is None,
        (r matches Decision::Fetch { method } ==> method_of(req.method@) == Some(method)),
{
    let now = now_millis();
    route_request(cache, tokens, req, now)
}

/// Records a fetched response body at the moment of the call: the clock
/// picks the creation instant. Whatever the clock read, the entry stored
/// under the request's key carries the body, the request's token, and an
/// expiration exactly `ttl` seconds past its creation; no other key changes.
pub fn cache_response(cache: &mut Cache, req: &Request, body: &String)
    requires
        old(cache).wf(),
    ensures
        final(cache).wf(),
        final(cache).contents().dom().contains(req.key@),
        final(cache).contents()[req.key@].key == req.key@,
        final(cache).contents()[req.key@].data == body@,
        final(cache).contents()[req.key@].created_by == req.token@,
        final(cache).contents()[req.key@].expires_at == expiry_of(
            final(cache).contents()[req.key@].created_at,
            req.ttl as int,
        ),
        forall|k: Seq<char>| k != req.key@ ==> (#[trigger] final(cache).contents().dom().contains(k)
            == old(cache).contents().dom().contains(k) && (old(cache).contents().dom().contains(k)
            ==> final(cache).contents()[k] == old(cache).contents()[k])),
{
    let now = now_millis();
    record_response(cache, req, body, now);
}

/// Removes `payload.key` from the cache when `payload.token` is a configured
/// token, and reports success; an unrecognized token is rejected without any
/// cache mutation, and without revealing whether the key was held.
pub fn clear(cache: &mut Cache, tokens: &Vec<String>, payload: &Clear) -> (r: Result<
    (),
    ApiError,
>)
    requires
        old(cache).wf(),
    ensures
        final(cache).wf(),
        (r is Ok) <==> has_token(tokens@, payload.token@),
        r is Ok ==> final(cache).contents() == old(cache).contents().remove(payload.key@),
        r is Err ==> *final(cache) == *old(cache) && r == Result::<(), ApiError>::Err(
            ApiError::Unauthorized,
        ),
{
    if token_valid(tokens, &payload.token) {
        cache.clear(&payload.key);
        Ok(())
    } else {
        Err(ApiError::Unauthorized)
    }
}

/// Parses a response body as JSON; succeeds exactly on well-formed text.
pub fn decode_body(body: &String) -> (r: Result<serde_json::Value, ApiError>)
    ensures
        (r is Ok) <==> json_ok(body@),
        r is Err ==> r == Result::<serde_json::Value, ApiError>::Err(ApiError::DecodeFailure),
{
    match parse_json(body.as_str()) {
        Ok(v) => Ok(v),
        Err(_) => Err(ApiError::DecodeFailure),
    }
}

impl CacheEntry {
    /// Parses the stored payload as JSON; succeeds exactly when the payload
    /// is well-formed.
    pub fn as_json(&self) -> (r: Result<serde_json::Value, ApiError>)
        ensures
            (r is Ok) <==> json_ok(self@.data),
            r is Err ==> r == Result::<serde_json::Value, ApiError>::Err(ApiError::DecodeFailure),
    {
        match parse_json(self.data().as_str()) {
            Ok(v) => Ok(v),
            Err(_) => Err(ApiError::DecodeFailure),
        }
    }
}

} // verus!

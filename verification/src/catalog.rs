//! The cached list of servers: when it may be served, when it must be
//! fetched again, and what a fetch leaves behind.

use vstd::prelude::*;
use crate::servers::{eligible_for, referents, visible_servers, LogicalServer, ServersResponse};
use crate::tier::PlanTier;

verus! {

/// How long a fetched list stays fresh: fifteen minutes, in milliseconds.
pub const FRESH_FOR: i64 = 900_000;

/// The list of servers as it was fetched, and when.
#[derive(Debug, Clone, PartialEq, Eq)]
pub struct ServerCatalogSnapshot {
    pub response: ServersResponse,
    /// Time of the fetch, in milliseconds since the Unix epoch.
    pub last_pull: i64,
}

/// What is known of the local cache.
#[derive(Debug, Clone, PartialEq, Eq)]
pub enum CacheState {
    /// Nothing was cached yet.
    Absent,
    /// A cache exists and could not be read.
    Unreadable,
    /// The cached snapshot.
    Present(ServerCatalogSnapshot),
}

/// What a read of the catalog has to do first.
#[derive(Debug, PartialEq, Eq, Structural, Copy, Clone)]
pub enum CatalogAction {
    /// The cache is fresh: serve from it, without a request to the directory.
    Serve,
    /// Send one request to the directory.
    Fetch,
}

/// How a request to the directory ended.
#[derive(Debug, Clone, PartialEq, Eq)]
pub enum FetchOutcome {
    /// The directory answered with a list.
    Fetched(ServersResponse),
    /// The directory was not reached, or not in time.
    Unreachable,
    /// The answer was not a list of servers.
    Malformed,
}

/// Why the catalog could not be read.
#[derive(Debug, PartialEq, Eq, Structural, Copy, Clone)]
pub enum CatalogError {
    RemoteUnavailable,
    MalformedResponse,
    CacheIoError,
}

/// A list fetched at `last_pull` is stale at `now` once more than fifteen
/// minutes lie between them.
pub open spec fn is_stale(now: int, last_pull: int) -> bool {
    now - last_pull > FRESH_FOR
}

/// What a read at `now` has to do first: serve a cache that is present and
/// fresh, fetch in every other case.
pub open spec fn action_of(cache: CacheState, now: int) -> CatalogAction {
    match cache {
        CacheState::Present(snapshot) => if is_stale(now, snapshot.last_pull as int) {
            CatalogAction::Fetch
        } else {
            CatalogAction::Serve
        },
        _ => CatalogAction::Fetch,
    }
}

/// The error that a failed fetch ends in. With a cache that exists and
/// cannot be read, the failure is reported as that of the cache.
pub open spec fn failure_of(cache: CacheState, outcome: FetchOutcome) -> CatalogError {
    if cache is Unreadable {
        CatalogError::CacheIoError
    } else if outcome is Malformed {
        CatalogError::MalformedResponse
    } else {
        CatalogError::RemoteUnavailable
    }
}

/// Whether a list fetched at `last_pull` is stale at `now`.
pub fn stale(now: i64, last_pull: i64) -> (b: bool)
    ensures
        b == is_stale(now as int, last_pull as int),
{
    if last_pull > i64::MAX - FRESH_FOR {
        false
    } else {
        now > last_pull + FRESH_FOR
    }
}

/// What a read of the catalog at `now` has to do first.
pub fn next_action(cache: &CacheState, now: i64) -> (a: CatalogAction)
    ensures
        a == action_of(*cache, now as int),
{
    match cache {
        CacheState::Present(snapshot) => {
            if stale(now, snapshot.last_pull) {
                CatalogAction::Fetch
            } else {
                CatalogAction::Serve
            }
        },
        _ => CatalogAction::Fetch,
    }
}

/// Takes in the outcome of a fetch made at `now`. A fetched list replaces
/// the cache, whole and with its time; a failed fetch leaves the cache as it
/// was and is reported.
pub fn conclude_fetch(cache: &mut CacheState, outcome: FetchOutcome, now: i64) -> (r: Result<
    (),
    CatalogError,
>)
    ensures
        match outcome {
            FetchOutcome::Fetched(response) => r is Ok && *final(cache) == CacheState::Present(
                ServerCatalogSnapshot { response, last_pull: now },
            ),
            _ => r == Err::<(), CatalogError>(failure_of(*old(cache), outcome)) && *final(cache)
                == *old(cache),
        },
{
    match outcome {
        FetchOutcome::Fetched(response) => {
            *cache = CacheState::Present(ServerCatalogSnapshot { response, last_pull: now });
            Ok(())
        },
        FetchOutcome::Unreachable => {
            match cache {
                CacheState::Unreadable => Err(CatalogError::CacheIoError),
                _ => Err(CatalogError::RemoteUnavailable),
            }
        },
        FetchOutcome::Malformed => {
            match cache {
                CacheState::Unreadable => Err(CatalogError::CacheIoError),
                _ => Err(CatalogError::MalformedResponse),
            }
        },
    }
}

/// Reads the catalog at `now` for an account of tier `tier`. A cache that is
/// present and fresh yields its servers that the account may use, in catalog
/// order; the filter is applied at each read, to the whole cached list. In
/// every other case nothing is read: a fetch is due first.
pub fn get_servers<'a>(cache: &'a CacheState, tier: PlanTier, now: i64) -> (r: Option<
    Vec<&'a LogicalServer>,
>)
    ensures
        r is Some <==> action_of(*cache, now as int) == CatalogAction::Serve,
        r matches Some(visible) ==> cache matches CacheState::Present(snapshot) && referents(
            visible@,
        ) == snapshot.response.logical_servers@.filter(eligible_for(tier)),
{
    match cache {
        CacheState::Present(snapshot) => {
            if stale(now, snapshot.last_pull) {
                None
            } else {
                Some(visible_servers(&snapshot.response.logical_servers, tier))
            }
        },
        _ => None,
    }
}

/// A list fetched at `t0` is served without a further request for fifteen
/// minutes, and fetched again at the first read after that.
pub proof fn lemma_fresh_window(response: ServersResponse, t0: i64, now: int)
    ensures
        action_of(
            CacheState::Present(ServerCatalogSnapshot { response, last_pull: t0 }),
            now,
        ) == (if now - t0 <= 15 * 60 * 1000 {
            CatalogAction::Serve
        } else {
            CatalogAction::Fetch
        }),
{
}

/// Right after a fetch that brought a list, the list is served: a read
/// that had to fetch first does not fetch twice.
pub proof fn lemma_fetched_is_served(response: ServersResponse, now: i64)
    ensures
        action_of(
            CacheState::Present(ServerCatalogSnapshot { response, last_pull: now }),
            now as int,
        ) == CatalogAction::Serve,
{
}

/// Without a readable cache every read fetches.
pub proof fn lemma_no_cache_fetches(now: int)
    ensures
        action_of(CacheState::Absent, now) == CatalogAction::Fetch,
        action_of(CacheState::Unreadable, now) == CatalogAction::Fetch,
{
}

} // verus!

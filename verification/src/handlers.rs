//! Per-request decision logic for the read endpoints.
//!
//! Each endpoint splits into a planning step, which decides from the cache
//! and the credential store whether to serve from cache, fetch upstream, or
//! fail, and a commit step, which folds a fetched document back into the
//! cache. The serving layer performs the fetches the plans ask for and maps
//! [`HandlerError`] to its status codes.

use vstd::prelude::*;

use crate::auth::{Auth, MAX_INSTANT_MS};
use crate::cache::{AccountData, Accounts};
use crate::ids::{AccountId, CharacterId};
use crate::manager::AuthManager;
use crate::models::{Character, CurrencyType, MasterData};

verus! {

/// How long a cached summary stays fresh, in milliseconds (one hour).
pub const SUMMARY_REFRESH_INTERVAL_MS: i64 = 3_600_000;

/// Failure mode of a read endpoint: the account, character or document is
/// unknown here, or the work itself failed.
#[derive(Clone, Copy, Debug, PartialEq, Eq, Structural)]
pub enum HandlerError {
    NotFound,
    Internal,
}

/// Whether a summary last refreshed at `last_updated` is still fresh at
/// `now`: strictly younger than the refresh interval.
pub open spec fn spec_summary_fresh(last_updated: int, now: int) -> bool {
    now - last_updated < SUMMARY_REFRESH_INTERVAL_MS
}

/// What the summary endpoint decided.
pub enum SummaryPlan {
    /// The cached summary is fresh: serve it as it stands.
    Cached,
    /// The summary is stale or the bundle was never filled: fetch a new one
    /// with the held credential, then commit it with
    /// [`Accounts::set_summary`].
    Fetch(Auth),
    /// The account is unknown here (no bundle, or no credential to fetch
    /// with).
    Missing,
}

/// Plans the summary read for an account: serve the cached summary while it
/// is fresh, refresh it with the stored credential once it is stale, and
/// fail on an account without a bundle or without a credential.
pub fn plan_summary(accounts: &Accounts, mgr: &AuthManager, id: AccountId, now_ms: i64) -> (r:
    SummaryPlan)
    requires
        0 <= now_ms <= MAX_INSTANT_MS,
    ensures
        !accounts@.contains_key(id.0) ==> r is Missing,
        accounts@.contains_key(id.0) && spec_summary_fresh(
            accounts@[id.0].last_updated as int,
            now_ms as int,
        ) ==> r is Cached,
        accounts@.contains_key(id.0) && !spec_summary_fresh(
            accounts@[id.0].last_updated as int,
            now_ms as int,
        ) ==> {
            if mgr.storage_map().contains_key(id.0) {
                r == SummaryPlan::Fetch(mgr.storage_map()[id.0])
            } else {
                r is Missing
            }
        },
{
    let data = match accounts.get(&id) {
        Some(data) => data,
        None => {
            return SummaryPlan::Missing;
        },
    };
    if data.last_updated > now_ms - SUMMARY_REFRESH_INTERVAL_MS {
        return SummaryPlan::Cached;
    }
    match mgr.get(id) {
        Some(auth) => SummaryPlan::Fetch(auth),
        None => SummaryPlan::Missing,
    }
}

/// Reads the cached master data of an account; there is no refresh policy
/// for it.
pub fn master_data_request<'a>(accounts: &'a Accounts, id: &AccountId) -> (r: Result<
    &'a MasterData,
    HandlerError,
>)
    ensures
        match r {
            Ok(md) => accounts@.contains_key(id.0) && *md == accounts@[id.0].master_data,
            Err(e) => !accounts@.contains_key(id.0) && e == HandlerError::NotFound,
        },
{
    match accounts.get(id) {
        Some(data) => Ok(&data.master_data),
        None => Err(HandlerError::NotFound),
    }
}

/// What the store endpoint decided.
pub enum StorePlan {
    /// The cached store still has a running rotation: serve it as it
    /// stands.
    Cached,
    /// The store is absent or its rotation is over, and the character is
    /// listed: fetch the character's store with the held credential, then
    /// commit it with [`Accounts::insert_store`].
    FetchStore(Auth, Character),
    /// The character is not listed in the cached summary: refresh the
    /// summary with the held credential first, commit it, and ask again
    /// with [`recheck_store`].
    FetchSummaryFirst(Auth),
    /// The account is unknown here (no bundle, or no credential to fetch
    /// with).
    Missing,
}

/// Whether the cached store of `character` for `currency` can be served at
/// `now`: present, with its rotation end strictly in the future.
pub open spec fn spec_store_current(
    data: AccountData,
    currency: CurrencyType,
    character: CharacterId,
    now: int,
) -> bool {
    &&& data.spec_store_map(currency).contains_key(character.0)
    &&& data.spec_store_map(currency)[character.0].current_rotation_end > now
}

/// Plans the store read for one character and currency: serve the cached
/// store while its rotation runs; otherwise fetch it anew, going through a
/// summary refresh first when the character is not listed.
pub fn plan_store(
    accounts: &Accounts,
    mgr: &AuthManager,
    id: AccountId,
    character: CharacterId,
    currency: CurrencyType,
    now_ms: i64,
) -> (r: StorePlan)
    ensures
        !accounts@.contains_key(id.0) ==> r is Missing,
        accounts@.contains_key(id.0) && spec_store_current(
            accounts@[id.0],
            currency,
            character,
            now_ms as int,
        ) ==> r is Cached,
        accounts@.contains_key(id.0) && !spec_store_current(
            accounts@[id.0],
            currency,
            character,
            now_ms as int,
        ) ==> {
            if !mgr.storage_map().contains_key(id.0) {
                r is Missing
            } else if accounts@[id.0].summary.spec_has_character(character) {
                r matches StorePlan::FetchStore(a, c) && a == mgr.storage_map()[id.0] && c.id
                    == character && exists|i: int|
                    0 <= i < accounts@[id.0].summary.characters@.len()
                        && accounts@[id.0].summary.characters@[i] == c
            } else {
                r == StorePlan::FetchSummaryFirst(mgr.storage_map()[id.0])
            }
        },
{
    let data = match accounts.get(&id) {
        Some(data) => data,
        None => {
            return StorePlan::Missing;
        },
    };
    match data.store_of(currency, character) {
        Some(store) => {
            if store.still_valid(now_ms) {
                return StorePlan::Cached;
            }
        },
        None => {},
    }
    let auth = match mgr.get(id) {
        Some(auth) => auth,
        None => {
            return StorePlan::Missing;
        },
    };
    match data.summary.find_character(character) {
        Some(c) => StorePlan::FetchStore(auth, c.clone()),
        None => StorePlan::FetchSummaryFirst(auth),
    }
}

/// Re-plans the store fetch after the summary was refreshed: if the newly
/// cached summary still lacks the character, the read fails and no store
/// fetch is made.
pub fn recheck_store(accounts: &Accounts, mgr: &AuthManager, id: AccountId, character: CharacterId)
    -> (r: Result<(Auth, Character), HandlerError>)
    ensures
        match r {
            Ok((a, c)) => {
                &&& accounts@.contains_key(id.0)
                &&& accounts@[id.0].summary.spec_has_character(character)
                &&& c.id == character
                &&& exists|i: int|
                    0 <= i < accounts@[id.0].summary.characters@.len() && accounts@[
                        id.0
                    ].summary.characters@[i] == c
                &&& mgr.storage_map().contains_key(id.0)
                &&& a == mgr.storage_map()[id.0]
            },
            Err(e) => {
                &&& e == HandlerError::NotFound
                &&& (!accounts@.contains_key(id.0) || !accounts@[
                    id.0
                ].summary.spec_has_character(character) || !mgr.storage_map().contains_key(id.0))
            },
        },
{
    let data = match accounts.get(&id) {
        Some(data) => data,
        None => {
            return Err(HandlerError::NotFound);
        },
    };
    let c = match data.summary.find_character(character) {
        Some(c) => c.clone(),
        None => {
            return Err(HandlerError::NotFound);
        },
    };
    match mgr.get(id) {
        Some(auth) => Ok((auth, c)),
        None => Err(HandlerError::NotFound),
    }
}

/// Picks the account the single-account endpoint variants serve: some known
/// account, or "not found" when none is known (never an internal error).
pub fn single_account(mgr: &AuthManager) -> (r: Result<AccountId, HandlerError>)
    ensures
        match r {
            Ok(id) => mgr.storage_map().contains_key(id.0),
            Err(e) => e == HandlerError::NotFound && mgr.storage_map() == Map::<
                u128,
                Auth,
            >::empty(),
        },
{
    match mgr.get_single() {
        Some(id) => Ok(id),
        None => Err(HandlerError::NotFound),
    }
}

/// What the credential ingestion endpoint decided.
#[derive(Clone, Copy, Debug, PartialEq, Eq, Structural)]
pub enum PutAuthStep {
    /// The account already has a credential: reply "ok" and enqueue
    /// nothing.
    AlreadyPresent,
    /// The account is new: enqueue the credential for the manager and reply
    /// "created".
    Enqueue,
}

/// Decides the ingestion endpoint's reply for an account: a second
/// ingestion of a known account enqueues nothing.
pub fn put_auth_step(mgr: &AuthManager, id: &AccountId) -> (r: PutAuthStep)
    ensures
        r == PutAuthStep::AlreadyPresent <==> mgr.storage_map().contains_key(id.0),
        r == PutAuthStep::Enqueue <==> !mgr.storage_map().contains_key(id.0),
{
    if mgr.contains(id) {
        PutAuthStep::AlreadyPresent
    } else {
        PutAuthStep::Enqueue
    }
}

} // verus!

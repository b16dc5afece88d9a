//! System-level guarantees, stated over the manager's transitions.
//!
//! Each function here either proves a consequence of the manager's
//! invariants outright, or runs a short sequence of transitions under the
//! weakest assumptions and states in its contract what the sequence must
//! yield — for every credential, bundle and instant, not just tested ones.

use vstd::prelude::*;

use crate::auth::{spec_refresh_deadline, Auth, MAX_INSTANT_MS, REFRESH_BUFFER_MS};
use crate::cache::{AccountData, Accounts};
use crate::ids::AccountId;
use crate::manager::{AuthManager, DeadlineOutcome, NewAuthOutcome};
use crate::queue::RefreshEntry;

verus! {

/// Whenever no populate pass is outstanding, every account with a stored
/// credential has a bundle in the cache: storage never runs ahead of the
/// cache.
pub proof fn lemma_stored_account_has_bundle(
    m: AuthManager,
    accounts: Map<u128, AccountData>,
    a: u128,
)
    requires
        m.populated(accounts),
        m.in_flight() is None,
        m.storage_map().contains_key(a),
    ensures
        accounts.contains_key(a),
{
    assert(!m.populate_pending_for(a));
}

/// A credential whose deadline has already passed counts as expired under
/// the refresh buffer, whatever the buffer's slack: at startup such a
/// credential is never taken over (see [`AuthManager::start_stored_auth`]).
pub proof fn lemma_past_deadline_counts_expired(auth: Auth, now_ms: int)
    requires
        match auth.refresh_at {
            None => true,
            Some(t) => t <= now_ms,
        },
    ensures
        auth.spec_expired(REFRESH_BUFFER_MS as int, now_ms),
{
}

/// Ingesting a fresh credential and committing its populate pass stores the
/// credential stamped with its refresh deadline, caches the fetched bundle,
/// and schedules one refresh; a second ingestion of the same account is
/// then ignored, so one credential produces exactly one populate pass.
pub fn ingest_and_populate(
    m: &mut AuthManager,
    accounts: &mut Accounts,
    auth: Auth,
    data: AccountData,
    now_ms: i64,
) -> (r: (Option<Auth>, NewAuthOutcome))
    requires
        old(m).wf(),
        old(m).in_flight() is None,
        !old(m).is_cancelled(),
        !old(m).storage_map().contains_key(auth.sub.0),
        auth.wf(),
        0 <= now_ms <= MAX_INSTANT_MS,
    ensures
        final(m).wf(),
        final(m).in_flight() is None,
        r.1 is AlreadyKnown,
        ({
            let d = RefreshEntry::spec_deadline_of(auth, now_ms as int) as i64;
            let stored = Auth { refresh_at: Some(d), ..auth };
            &&& r.0 == Some(stored)
            &&& final(m).storage_map() == old(m).storage_map().insert(auth.sub.0, stored)
            &&& final(m).deadlines() == old(m).deadlines().insert(auth.sub.0, d)
        }),
        final(accounts)@ == old(accounts)@.insert(auth.sub.0, data),
        old(m).populated(old(accounts)@) ==> final(m).populated(final(accounts)@),
{
    let first = m.on_new_auth(auth.clone(), now_ms);
    let persisted = m.on_populate_success(accounts, data);
    let second = m.on_new_auth(auth, now_ms);
    (persisted, second)
}

/// After cancellation an ingested credential is rejected outright: the
/// manager's state does not change and no populate pass starts. Since the
/// cache is only ever written through a committed populate pass (which
/// needs one outstanding) or through the read handlers' per-account
/// updates, no new account bundle enters the cache once the manager is
/// cancelled.
pub fn cancelled_ingestion_changes_nothing(m: &mut AuthManager, auth: Auth, now_ms: i64) -> (r:
    NewAuthOutcome)
    requires
        old(m).wf(),
        old(m).in_flight() is None,
        old(m).is_cancelled(),
        auth.wf(),
        0 <= now_ms <= MAX_INSTANT_MS,
    ensures
        r is Rejected,
        final(m).wf(),
        final(m).is_cancelled(),
        final(m).in_flight() is None,
        final(m).storage_map() == old(m).storage_map(),
        final(m).deadlines() == old(m).deadlines(),
{
    m.on_new_auth(auth, now_ms)
}

/// When the nearest deadline fires for an account that is still stored and
/// its upstream refresh succeeds, the fresh credential is stored under that
/// account with the deadline `now + expires_in - buffer`, and exactly that
/// deadline is requeued for the account.
pub fn scheduled_refresh_cycle(m: &mut AuthManager, new_auth: Auth, now_ms: i64) -> (r: Auth)
    requires
        old(m).wf(),
        old(m).in_flight() is None,
        old(m).deadlines() != Map::<u128, i64>::empty(),
        forall|k: u128|
            old(m).deadlines().contains_key(k) ==> old(m).storage_map().contains_key(k),
        new_auth.wf(),
        0 <= now_ms <= MAX_INSTANT_MS,
    ensures
        final(m).wf(),
        final(m).in_flight() is None,
        ({
            let d = spec_refresh_deadline(now_ms as int, new_auth.expires_in as int);
            &&& r == Auth { refresh_at: Some(d as i64), ..new_auth }
            &&& exists|k: u128|
                {
                    &&& old(m).deadlines().contains_key(k)
                    &&& forall|k2: u128|
                        old(m).deadlines().contains_key(k2) ==> old(m).deadlines()[k] <= old(
                            m,
                        ).deadlines()[k2]
                    &&& #[trigger] final(m).storage_map() == old(m).storage_map().insert(k, r)
                    &&& final(m).deadlines() == old(m).deadlines().remove(k).insert(k, d as i64)
                }
        }),
{
    let outcome = m.on_deadline();
    match outcome {
        DeadlineOutcome::Refresh(_) => m.on_refresh_success(new_auth, now_ms),
        DeadlineOutcome::Idle => {
            proof {
                assert(false);
            }
            new_auth
        },
        DeadlineOutcome::Orphan(_) => {
            proof {
                assert(false);
            }
            new_auth
        },
    }
}

/// When the nearest deadline fires for an account that is still stored and
/// its upstream refresh fails, the account's credential is evicted and not
/// requeued: a credential that cannot be refreshed is dead.
pub fn failed_refresh_evicts(m: &mut AuthManager) -> (r: AccountId)
    requires
        old(m).wf(),
        old(m).in_flight() is None,
        old(m).deadlines() != Map::<u128, i64>::empty(),
        forall|k: u128|
            old(m).deadlines().contains_key(k) ==> old(m).storage_map().contains_key(k),
    ensures
        final(m).wf(),
        final(m).in_flight() is None,
        old(m).deadlines().contains_key(r.0),
        !final(m).storage_map().contains_key(r.0),
        final(m).storage_map() == old(m).storage_map().remove(r.0),
        final(m).deadlines() == old(m).deadlines().remove(r.0),
{
    let outcome = m.on_deadline();
    match outcome {
        DeadlineOutcome::Refresh(_) => m.on_refresh_failure(),
        DeadlineOutcome::Idle => {
            proof {
                assert(false);
            }
            AccountId(0)
        },
        DeadlineOutcome::Orphan(id) => {
            proof {
                assert(false);
            }
            id
        },
    }
}

} // verus!

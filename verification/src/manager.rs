//! The credential manager: a state machine over the credential store, the
//! refresh queue and the account cache.
//!
//! The running system drives this machine from a single task: it feeds in
//! events (a stored credential found at startup, a newly ingested
//! credential, a fired deadline, the result of an upstream call, the
//! cancellation signal) and carries out the one upstream call each outcome
//! may ask for. While a call is outstanding the machine accepts only that
//! call's result, which models the manager task awaiting the call inline.
//!
//! Invariants the transitions keep:
//! - the queue holds at most one deadline per account;
//! - every stored account either has a cache bundle or is the subject of
//!   the one outstanding populate pass (see [`AuthManager::populated`]);
//! - every stored credential satisfies the arithmetic bounds of
//!   [`Auth::wf`].

use vstd::prelude::*;

use crate::auth::{spec_refresh_deadline, refresh_deadline, Auth, MAX_INSTANT_MS,
    REFRESH_BUFFER_MS};
use crate::cache::{AccountData, Accounts};
use crate::ids::AccountId;
use crate::queue::{RefreshEntry, RefreshQueue};
use crate::storage::InMemoryAuthStorage;

verus! {

/// Why the outstanding populate pass was started; decides what happens to
/// the credential when the pass resolves.
#[derive(Clone, Copy, PartialEq, Eq, Structural)]
pub enum PopulateReason {
    /// The credential was read back from storage at startup, so it is
    /// already stored; a failed pass evicts it.
    Startup,
    /// The credential arrived over the ingestion endpoint and is not stored
    /// yet; a successful pass stores it, a failed one drops it.
    Ingestion,
}

/// The upstream call the manager has asked for and not yet heard back
/// about.
pub enum InFlight {
    /// The initial bundle fetch (summary, both stores, master data) for a
    /// credential.
    Populate { auth: Auth, reason: PopulateReason },
    /// A credential refresh for the account whose deadline fired.
    Refresh { id: AccountId },
}

/// What [`AuthManager::start_stored_auth`] decided.
pub enum StartOutcome {
    /// The credential was already due (or had no deadline): it was not
    /// taken over, and its durable record should be deleted.
    Expired,
    /// The credential was scheduled; the initial bundle fetch for the held
    /// credential must now be made and its result fed back.
    FetchBundle,
}

/// What [`AuthManager::on_new_auth`] decided.
pub enum NewAuthOutcome {
    /// The manager is cancelled and accepts no new credentials.
    Rejected,
    /// The account already has a stored credential; re-ingestion is a
    /// no-op.
    AlreadyKnown,
    /// The credential was scheduled; the initial bundle fetch for the held
    /// credential must now be made and its result fed back.
    FetchBundle,
}

/// What [`AuthManager::on_deadline`] decided.
pub enum DeadlineOutcome {
    /// The queue was empty; nothing to do.
    Idle,
    /// The popped account has no stored credential any more: the entry is
    /// dropped and any durable record of the account should be deleted.
    Orphan(AccountId),
    /// The popped account's credential must now be refreshed upstream with
    /// the returned credential, and the result fed back.
    Refresh(Auth),
}

/// The manager's state: the owned credential store, the refresh queue, the
/// outstanding upstream call, and the cancellation flag.
pub struct AuthManager {
    storage: InMemoryAuthStorage,
    queue: RefreshQueue,
    in_flight: Option<InFlight>,
    cancelled: bool,
}

impl AuthManager {
    /// The stored credentials, by account id value.
    pub closed spec fn storage_map(&self) -> Map<u128, Auth> {
        self.storage@
    }

    /// The queued refresh deadlines, by account id value.
    pub closed spec fn deadlines(&self) -> Map<u128, i64> {
        self.queue@
    }

    /// The outstanding upstream call, if any.
    pub closed spec fn in_flight(&self) -> Option<InFlight> {
        self.in_flight
    }

    /// Whether cancellation has been observed.
    pub closed spec fn is_cancelled(&self) -> bool {
        self.cancelled
    }

    /// Whether the outstanding call is a populate pass for account `k`.
    pub open spec fn populate_pending_for(self, k: u128) -> bool {
        match self.in_flight() {
            Some(InFlight::Populate { auth, .. }) => auth.sub.0 == k,
            _ => false,
        }
    }

    /// Every stored account either has a bundle in the cache or is the
    /// subject of the outstanding populate pass.
    pub open spec fn populated(self, accounts: Map<u128, AccountData>) -> bool {
        forall|k: u128|
            #[trigger] self.storage_map().contains_key(k) ==> accounts.contains_key(k)
                || self.populate_pending_for(k)
    }

    /// The manager's internal invariant.
    pub closed spec fn wf(self) -> bool {
        &&& self.queue.wf()
        &&& forall|k: u128| #[trigger] self.storage@.contains_key(k) ==> self.storage@[k].wf()
        &&& match self.in_flight {
            Some(InFlight::Populate { auth, reason }) => {
                &&& auth.wf()
                &&& (reason is Startup ==> self.storage@.contains_key(auth.sub.0))
                &&& (reason is Ingestion ==> !self.storage@.contains_key(auth.sub.0))
            },
            Some(InFlight::Refresh { id }) => self.storage@.contains_key(id.0),
            None => true,
        }
    }

    /// Creates a manager over an empty volatile store.
    pub fn new() -> (r: AuthManager)
        ensures
            r.wf(),
            r.storage_map() == Map::<u128, Auth>::empty(),
            r.deadlines() == Map::<u128, i64>::empty(),
            r.in_flight() is None,
            !r.is_cancelled(),
    {
        AuthManager {
            storage: InMemoryAuthStorage::new(),
            queue: RefreshQueue::new(),
            in_flight: None,
            cancelled: false,
        }
    }

    /// Creates a manager over a given store; every credential already in it
    /// must satisfy the arithmetic bounds.
    pub fn new_with_storage(storage: InMemoryAuthStorage) -> (r: AuthManager)
        requires
            forall|k: u128| #[trigger] storage@.contains_key(k) ==> storage@[k].wf(),
        ensures
            r.wf(),
            r.storage_map() == storage@,
            r.deadlines() == Map::<u128, i64>::empty(),
            r.in_flight() is None,
            !r.is_cancelled(),
    {
        AuthManager { storage, queue: RefreshQueue::new(), in_flight: None, cancelled: false }
    }

    /// Takes over one credential found in durable storage at startup.
    ///
    /// An already-due credential (no deadline, or one within the refresh
    /// buffer of `now_ms`) is not taken over: the caller deletes its
    /// durable record. Any other credential is stored, scheduled under its
    /// own deadline, and its initial bundle fetch is requested; a failed
    /// fetch later evicts it (see [`AuthManager::on_populate_failure`]),
    /// which keeps every stored account backed by a cache bundle.
    pub fn start_stored_auth(&mut self, auth: Auth, now_ms: i64) -> (r: StartOutcome)
        requires
            old(self).wf(),
            old(self).in_flight() is None,
            !old(self).is_cancelled(),
            auth.wf(),
            0 <= now_ms <= MAX_INSTANT_MS,
        ensures
            final(self).wf(),
            final(self).is_cancelled() == old(self).is_cancelled(),
            auth.spec_expired(REFRESH_BUFFER_MS as int, now_ms as int) ==> {
                &&& r is Expired
                &&& final(self).storage_map() == old(self).storage_map()
                &&& final(self).deadlines() == old(self).deadlines()
                &&& final(self).in_flight() is None
            },
            !auth.spec_expired(REFRESH_BUFFER_MS as int, now_ms as int) ==> {
                &&& r is FetchBundle
                &&& final(self).storage_map() == old(self).storage_map().insert(auth.sub.0, auth)
                &&& final(self).deadlines() == old(self).deadlines().insert(
                    auth.sub.0,
                    auth.refresh_at.unwrap(),
                )
                &&& final(self).in_flight() == Some(
                    InFlight::Populate { auth, reason: PopulateReason::Startup },
                )
            },
            forall|acc: Map<u128, AccountData>|
                old(self).populated(acc) ==> #[trigger] final(self).populated(acc),
    {
        if auth.expired(REFRESH_BUFFER_MS, now_ms) {
            StartOutcome::Expired
        } else {
            let entry = RefreshEntry::from_auth(&auth, now_ms);
            self.storage.insert(auth.sub, auth.clone());
            self.queue.schedule(entry);
            self.in_flight = Some(InFlight::Populate { auth, reason: PopulateReason::Startup });
            proof {
                lemma_populated_preserved(*old(self), *self);
            }
            StartOutcome::FetchBundle
        }
    }

    /// Handles an ingested credential.
    ///
    /// After cancellation nothing is accepted. A credential whose account
    /// is already stored is ignored, so repeated ingestion of the same
    /// account starts no second fetch. Otherwise the account is scheduled,
    /// the credential is stamped with its deadline (so that the stored
    /// record survives a restart), and the initial bundle fetch is
    /// requested; the credential is stored only once that fetch succeeds.
    pub fn on_new_auth(&mut self, auth: Auth, now_ms: i64) -> (r: NewAuthOutcome)
        requires
            old(self).wf(),
            old(self).in_flight() is None,
            auth.wf(),
            0 <= now_ms <= MAX_INSTANT_MS,
        ensures
            final(self).wf(),
            final(self).is_cancelled() == old(self).is_cancelled(),
            final(self).storage_map() == old(self).storage_map(),
            old(self).is_cancelled() ==> {
                &&& r is Rejected
                &&& final(self).deadlines() == old(self).deadlines()
                &&& final(self).in_flight() is None
            },
            !old(self).is_cancelled() && old(self).storage_map().contains_key(auth.sub.0) ==> {
                &&& r is AlreadyKnown
                &&& final(self).deadlines() == old(self).deadlines()
                &&& final(self).in_flight() is None
            },
            !old(self).is_cancelled() && !old(self).storage_map().contains_key(auth.sub.0) ==> {
                let d = RefreshEntry::spec_deadline_of(auth, now_ms as int) as i64;
                &&& r is FetchBundle
                &&& final(self).deadlines() == old(self).deadlines().insert(auth.sub.0, d)
                &&& final(self).in_flight() == Some(
                    InFlight::Populate {
                        auth: Auth { refresh_at: Some(d), ..auth },
                        reason: PopulateReason::Ingestion,
                    },
                )
            },
            forall|acc: Map<u128, AccountData>|
                old(self).populated(acc) ==> #[trigger] final(self).populated(acc),
    {
        if self.cancelled {
            proof {
                lemma_populated_preserved(*old(self), *self);
            }
            return NewAuthOutcome::Rejected;
        }
        if self.storage.contains(&auth.sub) {
            proof {
                lemma_populated_preserved(*old(self), *self);
            }
            return NewAuthOutcome::AlreadyKnown;
        }
        let entry = RefreshEntry::from_auth(&auth, now_ms);
        self.queue.schedule(entry);
        let scheduled = Auth { refresh_at: Some(entry.refresh_at), ..auth };
        self.in_flight = Some(
            InFlight::Populate { auth: scheduled, reason: PopulateReason::Ingestion },
        );
        proof {
            lemma_populated_preserved(*old(self), *self);
        }
        NewAuthOutcome::FetchBundle
    }

    /// Commits a successful populate pass: the fetched bundle goes into the
    /// cache, and an ingested credential is now stored. Returns the
    /// credential the caller must write to durable storage, if any.
    pub fn on_populate_success(&mut self, accounts: &mut Accounts, data: AccountData) -> (r:
        Option<Auth>)
        requires
            old(self).wf(),
            old(self).in_flight() matches Some(InFlight::Populate { .. }),
        ensures
            final(self).wf(),
            final(self).is_cancelled() == old(self).is_cancelled(),
            final(self).deadlines() == old(self).deadlines(),
            final(self).in_flight() is None,
            old(self).in_flight() matches Some(InFlight::Populate { auth, reason }) ==> {
                &&& final(accounts)@ == old(accounts)@.insert(auth.sub.0, data)
                &&& final(self).storage_map() == if reason is Ingestion {
                    old(self).storage_map().insert(auth.sub.0, auth)
                } else {
                    old(self).storage_map()
                }
                &&& r == if reason is Ingestion {
                    Some(auth)
                } else {
                    None::<Auth>
                }
                &&& final(self).storage_map().contains_key(auth.sub.0)
                &&& final(accounts)@.contains_key(auth.sub.0)
            },
            old(self).populated(old(accounts)@) ==> final(self).populated(final(accounts)@),
    {
        let in_flight = self.in_flight.take();
        match in_flight {
            Some(InFlight::Populate { auth, reason }) => {
                let ghost sub = auth.sub.0;
                accounts.insert(auth.sub, data);
                let r = match reason {
                    PopulateReason::Ingestion => {
                        self.storage.insert(auth.sub, auth.clone());
                        Some(auth)
                    },
                    PopulateReason::Startup => None,
                };
                proof {
                    if old(self).populated(old(accounts)@) {
                        assert forall|k: u128|
                            #[trigger] self.storage_map().contains_key(k) implies accounts@
                            .contains_key(k) || self.populate_pending_for(k) by {
                            if k != sub {
                                assert(old(self).storage_map().contains_key(k));
                                assert(old(accounts)@.contains_key(k));
                            }
                        }
                    }
                }
                r
            },
            _ => None,
        }
    }

    /// Abandons a failed populate pass. An ingested credential is dropped
    /// (it was never stored); a credential taken over at startup is
    /// evicted. Returns the account whose durable record the caller must
    /// delete, if any.
    pub fn on_populate_failure(&mut self) -> (r: Option<AccountId>)
        requires
            old(self).wf(),
            old(self).in_flight() matches Some(InFlight::Populate { .. }),
        ensures
            final(self).wf(),
            final(self).is_cancelled() == old(self).is_cancelled(),
            final(self).deadlines() == old(self).deadlines(),
            final(self).in_flight() is None,
            old(self).in_flight() matches Some(InFlight::Populate { auth, reason }) ==> {
                &&& final(self).storage_map() == if reason is Startup {
                    old(self).storage_map().remove(auth.sub.0)
                } else {
                    old(self).storage_map()
                }
                &&& r == if reason is Startup {
                    Some(auth.sub)
                } else {
                    None::<AccountId>
                }
                &&& !final(self).storage_map().contains_key(auth.sub.0)
            },
            forall|acc: Map<u128, AccountData>|
                old(self).populated(acc) ==> #[trigger] final(self).populated(acc),
    {
        let in_flight = self.in_flight.take();
        let r = match in_flight {
            Some(InFlight::Populate { auth, reason }) => {
                match reason {
                    PopulateReason::Startup => {
                        self.storage.remove(&auth.sub);
                        Some(auth.sub)
                    },
                    PopulateReason::Ingestion => None,
                }
            },
            _ => None,
        };
        proof {
            lemma_populated_preserved(*old(self), *self);
        }
        r
    }

    /// The earliest queued deadline, for the caller to sleep until; `None`
    /// when nothing is queued (the caller waits for commands alone).
    pub fn next_deadline(&self) -> (r: Option<i64>)
        requires
            self.wf(),
        ensures
            match r {
                Some(t) => {
                    &&& self.deadlines() != Map::<u128, i64>::empty()
                    &&& exists|k: u128| self.deadlines().contains_key(k) && self.deadlines()[k]
                        == t
                    &&& forall|k: u128| self.deadlines().contains_key(k) ==> t
                        <= self.deadlines()[k]
                },
                None => self.deadlines() == Map::<u128, i64>::empty(),
            },
    {
        self.queue.peek_min()
    }

    /// Handles a fired deadline: pops the earliest entry. An account that
    /// is no longer stored is dropped (orphan cleanup); otherwise the
    /// caller must refresh the returned credential upstream and feed the
    /// result back.
    pub fn on_deadline(&mut self) -> (r: DeadlineOutcome)
        requires
            old(self).wf(),
            old(self).in_flight() is None,
        ensures
            final(self).wf(),
            final(self).is_cancelled() == old(self).is_cancelled(),
            final(self).storage_map() == old(self).storage_map(),
            match r {
                DeadlineOutcome::Idle => {
                    &&& old(self).deadlines() == Map::<u128, i64>::empty()
                    &&& final(self).deadlines() == old(self).deadlines()
                    &&& final(self).in_flight() is None
                },
                DeadlineOutcome::Orphan(id) => {
                    &&& old(self).deadlines().contains_key(id.0)
                    &&& !old(self).storage_map().contains_key(id.0)
                    &&& forall|k: u128|
                        old(self).deadlines().contains_key(k) ==> old(self).deadlines()[id.0]
                            <= old(self).deadlines()[k]
                    &&& final(self).deadlines() == old(self).deadlines().remove(id.0)
                    &&& final(self).in_flight() is None
                },
                DeadlineOutcome::Refresh(auth) => {
                    &&& final(self).in_flight() matches Some(InFlight::Refresh { id }) && {
                        &&& old(self).deadlines().contains_key(id.0)
                        &&& old(self).storage_map().contains_key(id.0)
                        &&& auth == old(self).storage_map()[id.0]
                        &&& forall|k: u128|
                            old(self).deadlines().contains_key(k) ==> old(self).deadlines()[id.0]
                                <= old(self).deadlines()[k]
                        &&& final(self).deadlines() == old(self).deadlines().remove(id.0)
                    }
                },
            },
            forall|acc: Map<u128, AccountData>|
                old(self).populated(acc) ==> #[trigger] final(self).populated(acc),
    {
        let r = match self.queue.pop_min() {
            None => DeadlineOutcome::Idle,
            Some(entry) => {
                match self.storage.get(entry.id) {
                    None => DeadlineOutcome::Orphan(entry.id),
                    Some(auth) => {
                        self.in_flight = Some(InFlight::Refresh { id: entry.id });
                        DeadlineOutcome::Refresh(auth)
                    },
                }
            },
        };
        proof {
            lemma_populated_preserved(*old(self), *self);
        }
        r
    }

    /// Commits a successful refresh: the fresh credential gets its new
    /// deadline (`now + expires_in - buffer`), replaces the stored one
    /// under the original account key, and is requeued. Returns the
    /// credential the caller must write to durable storage.
    pub fn on_refresh_success(&mut self, new_auth: Auth, now_ms: i64) -> (r: Auth)
        requires
            old(self).wf(),
            old(self).in_flight() matches Some(InFlight::Refresh { .. }),
            new_auth.wf(),
            0 <= now_ms <= MAX_INSTANT_MS,
        ensures
            final(self).wf(),
            final(self).is_cancelled() == old(self).is_cancelled(),
            final(self).in_flight() is None,
            old(self).in_flight() matches Some(InFlight::Refresh { id }) ==> {
                let d = spec_refresh_deadline(now_ms as int, new_auth.expires_in as int);
                &&& r == Auth { refresh_at: Some(d as i64), ..new_auth }
                &&& final(self).storage_map() == old(self).storage_map().insert(id.0, r)
                &&& final(self).deadlines() == old(self).deadlines().insert(id.0, d as i64)
            },
            forall|acc: Map<u128, AccountData>|
                old(self).populated(acc) ==> #[trigger] final(self).populated(acc),
    {
        let in_flight = self.in_flight.take();
        match in_flight {
            Some(InFlight::Refresh { id }) => {
                let deadline = refresh_deadline(now_ms, new_auth.expires_in);
                let stored = Auth { refresh_at: Some(deadline), ..new_auth };
                self.storage.insert(id, stored.clone());
                self.queue.schedule(RefreshEntry { id, refresh_at: deadline });
                proof {
                    lemma_populated_preserved(*old(self), *self);
                }
                stored
            },
            _ => new_auth,
        }
    }

    /// Abandons a failed refresh: the account's credential is evicted and
    /// not requeued; a credential that cannot be refreshed is dead.
    /// Returns the account whose durable record the caller must delete.
    pub fn on_refresh_failure(&mut self) -> (r: AccountId)
        requires
            old(self).wf(),
            old(self).in_flight() matches Some(InFlight::Refresh { .. }),
        ensures
            final(self).wf(),
            final(self).is_cancelled() == old(self).is_cancelled(),
            final(self).in_flight() is None,
            final(self).deadlines() == old(self).deadlines(),
            old(self).in_flight() matches Some(InFlight::Refresh { id }) ==> {
                &&& r == id
                &&& final(self).storage_map() == old(self).storage_map().remove(id.0)
                &&& !final(self).storage_map().contains_key(id.0)
            },
            forall|acc: Map<u128, AccountData>|
                old(self).populated(acc) ==> #[trigger] final(self).populated(acc),
    {
        let in_flight = self.in_flight.take();
        let r = match in_flight {
            Some(InFlight::Refresh { id }) => {
                self.storage.remove(&id);
                id
            },
            _ => AccountId(0),
        };
        proof {
            lemma_populated_preserved(*old(self), *self);
        }
        r
    }

    /// Observes the cancellation signal: from here on no new credential is
    /// accepted, so no new bundle ever enters the cache through the
    /// manager.
    pub fn on_cancel(&mut self)
        requires
            old(self).wf(),
            old(self).in_flight() is None,
        ensures
            final(self).wf(),
            final(self).is_cancelled(),
            final(self).storage_map() == old(self).storage_map(),
            final(self).deadlines() == old(self).deadlines(),
            final(self).in_flight() is None,
    {
        self.cancelled = true;
    }

    /// Reads the stored credential of an account (the read view handlers
    /// use).
    pub fn get(&self, id: AccountId) -> (r: Option<Auth>)
        ensures
            match r {
                Some(a) => self.storage_map().contains_key(id.0) && a == self.storage_map()[id.0],
                None => !self.storage_map().contains_key(id.0),
            },
    {
        self.storage.get(id)
    }

    /// Picks some stored account, or `None` when none is known.
    pub fn get_single(&self) -> (r: Option<AccountId>)
        ensures
            match r {
                Some(id) => self.storage_map().contains_key(id.0),
                None => self.storage_map() == Map::<u128, Auth>::empty(),
            },
    {
        self.storage.get_single()
    }

    /// Whether the account has a stored credential.
    pub fn contains(&self, id: &AccountId) -> (b: bool)
        ensures
            b == self.storage_map().contains_key(id.0),
    {
        self.storage.contains(id)
    }

    /// Reads the queued deadline of an account, if it has one.
    pub fn deadline_of(&self, id: &AccountId) -> (r: Option<i64>)
        requires
            self.wf(),
        ensures
            match r {
                Some(t) => self.deadlines().contains_key(id.0) && t == self.deadlines()[id.0],
                None => !self.deadlines().contains_key(id.0),
            },
    {
        self.queue.get(id)
    }
}

/// Cache backing survives any step that adds no stored account without
/// announcing a populate pass for it, and drops no pass while its account
/// stays stored.
proof fn lemma_populated_preserved(pre: AuthManager, post: AuthManager)
    requires
        forall|k: u128|
            #[trigger] post.storage_map().contains_key(k) ==> pre.storage_map().contains_key(k)
                || post.populate_pending_for(k),
        forall|k: u128|
            pre.populate_pending_for(k) && #[trigger] post.storage_map().contains_key(k)
                ==> post.populate_pending_for(k),
    ensures
        forall|acc: Map<u128, AccountData>|
            pre.populated(acc) ==> #[trigger] post.populated(acc),
{
    assert forall|acc: Map<u128, AccountData>| pre.populated(acc) implies #[trigger] post
        .populated(acc) by {
        assert forall|k: u128| #[trigger] post.storage_map().contains_key(k) implies acc
            .contains_key(k) || post.populate_pending_for(k) by {
            if pre.storage_map().contains_key(k) {
                assert(acc.contains_key(k) || pre.populate_pending_for(k));
            }
        }
    }
}

} // verus!

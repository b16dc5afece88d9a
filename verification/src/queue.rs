//! The queue of upcoming credential refreshes.
//!
//! One deadline per account, popped earliest-first. Abstractly the queue is
//! a map from account id to its refresh deadline, so an account can never
//! hold two entries at once; scheduling an account that is already queued
//! replaces its deadline.

use vstd::prelude::*;

use crate::auth::{spec_refresh_deadline, refresh_deadline, Auth, MAX_INSTANT_MS,
    MAX_REFRESH_AT_MS, MIN_REFRESH_AT_MS};
use crate::ids::AccountId;

verus! {

/// One queued refresh: the account and its deadline in milliseconds since
/// the epoch.
#[derive(Clone, Copy, Debug, PartialEq, Eq, Structural)]
pub struct RefreshEntry {
    pub id: AccountId,
    pub refresh_at: i64,
}

impl RefreshEntry {
    /// The deadline an entry built from this credential at time `now_ms`
    /// carries: the credential's own deadline if it has one, else a fresh
    /// one computed from its validity period.
    pub open spec fn spec_deadline_of(auth: Auth, now_ms: int) -> int {
        match auth.refresh_at {
            Some(t) => t as int,
            None => spec_refresh_deadline(now_ms, auth.expires_in as int),
        }
    }

    /// Builds the queue entry for a credential scheduled at `now_ms`.
    pub fn from_auth(auth: &Auth, now_ms: i64) -> (r: RefreshEntry)
        requires
            auth.wf(),
            0 <= now_ms <= MAX_INSTANT_MS,
        ensures
            r.id == auth.sub,
            r.refresh_at == Self::spec_deadline_of(*auth, now_ms as int),
            MIN_REFRESH_AT_MS <= r.refresh_at <= MAX_REFRESH_AT_MS,
    {
        let refresh_at = match auth.refresh_at {
            Some(t) => t,
            None => refresh_deadline(now_ms, auth.expires_in),
        };
        RefreshEntry { id: auth.sub, refresh_at }
    }
}

/// The entries of a queue slice as a map from account id value to deadline.
pub closed spec fn entries_as_map(s: Seq<RefreshEntry>) -> Map<u128, i64>
    decreases s.len(),
{
    if s.len() == 0 {
        Map::empty()
    } else {
        entries_as_map(s.drop_last()).insert(s.last().id.0, s.last().refresh_at)
    }
}

/// Whether no two entries of the slice name the same account.
spec fn distinct_ids(s: Seq<RefreshEntry>) -> bool {
    forall|i: int, j: int| 0 <= i < j < s.len() ==> s[i].id.0 != s[j].id.0
}

proof fn lemma_as_map_dom(s: Seq<RefreshEntry>)
    ensures
        forall|k: u128|
            entries_as_map(s).contains_key(k) <==> exists|i: int|
                0 <= i < s.len() && s[i].id.0 == k,
    decreases s.len(),
{
    if s.len() > 0 {
        lemma_as_map_dom(s.drop_last());
        assert(entries_as_map(s) == entries_as_map(s.drop_last()).insert(
            s.last().id.0,
            s.last().refresh_at,
        ));
        assert forall|k: u128| entries_as_map(s).contains_key(k) implies exists|i: int|
            0 <= i < s.len() && s[i].id.0 == k by {
            if k == s.last().id.0 {
                assert(s[s.len() - 1].id.0 == k);
            } else {
                assert(entries_as_map(s.drop_last()).contains_key(k));
                let i = choose|i: int| 0 <= i < s.drop_last().len() && s.drop_last()[i].id.0 == k;
                assert(s.drop_last()[i] == s[i]);
                assert(s[i].id.0 == k);
            }
        }
        assert forall|k: u128|
            exists|i: int| 0 <= i < s.len() && s[i].id.0 == k implies entries_as_map(
            s,
        ).contains_key(k) by {
            let i = choose|i: int| 0 <= i < s.len() && s[i].id.0 == k;
            if i < s.len() - 1 {
                assert(s.drop_last()[i] == s[i]);
                assert(s.drop_last()[i].id.0 == k);
            }
        }
    }
}

proof fn lemma_as_map_index(s: Seq<RefreshEntry>, i: int)
    requires
        distinct_ids(s),
        0 <= i < s.len(),
    ensures
        entries_as_map(s).contains_key(s[i].id.0),
        entries_as_map(s)[s[i].id.0] == s[i].refresh_at,
    decreases s.len(),
{
    if i == s.len() - 1 {
    } else {
        assert(distinct_ids(s.drop_last()));
        assert(s.drop_last()[i] == s[i]);
        lemma_as_map_index(s.drop_last(), i);
        assert(s[i].id.0 != s.last().id.0);
    }
}

proof fn lemma_as_map_len(s: Seq<RefreshEntry>)
    requires
        distinct_ids(s),
    ensures
        entries_as_map(s).dom().finite(),
        entries_as_map(s).dom().len() == s.len(),
    decreases s.len(),
{
    if s.len() > 0 {
        assert(distinct_ids(s.drop_last()));
        lemma_as_map_len(s.drop_last());
        lemma_as_map_dom(s.drop_last());
        assert(!entries_as_map(s.drop_last()).contains_key(s.last().id.0));
    }
}

proof fn lemma_as_map_remove(s: Seq<RefreshEntry>, i: int)
    requires
        distinct_ids(s),
        0 <= i < s.len(),
    ensures
        entries_as_map(s.remove(i)) =~= entries_as_map(s).remove(s[i].id.0),
    decreases s.len(),
{
    let k = s[i].id.0;
    if i == s.len() - 1 {
        assert(s.remove(i) =~= s.drop_last());
        lemma_as_map_dom(s.drop_last());
        assert(!entries_as_map(s.drop_last()).contains_key(k));
        assert(entries_as_map(s.drop_last()).insert(k, s.last().refresh_at).remove(k)
            =~= entries_as_map(s.drop_last()));
    } else {
        assert(distinct_ids(s.drop_last()));
        assert(s.drop_last()[i] == s[i]);
        lemma_as_map_remove(s.drop_last(), i);
        assert(s.remove(i).drop_last() =~= s.drop_last().remove(i));
        assert(s.remove(i).last() == s.last());
        assert(entries_as_map(s.remove(i)) == entries_as_map(s.drop_last().remove(i)).insert(
            s.last().id.0,
            s.last().refresh_at,
        ));
        assert(k != s.last().id.0);
    }
}

/// The queue itself. Physically a vector holding at most one entry per
/// account; abstractly the map of [`entries_as_map`].
pub struct RefreshQueue {
    entries: Vec<RefreshEntry>,
}

impl RefreshQueue {
    /// The queued deadlines as a map from account id value to deadline.
    pub closed spec fn view(&self) -> Map<u128, i64> {
        entries_as_map(self.entries@)
    }

    /// The queue holds at most one entry per account.
    pub closed spec fn wf(self) -> bool {
        distinct_ids(self.entries@)
    }

    /// Creates an empty queue.
    pub fn new() -> (r: RefreshQueue)
        ensures
            r.wf(),
            r@ == Map::<u128, i64>::empty(),
    {
        RefreshQueue { entries: Vec::new() }
    }

    /// The number of queued accounts.
    pub fn len(&self) -> (n: usize)
        requires
            self.wf(),
        ensures
            n == self@.dom().len(),
            self@.dom().finite(),
    {
        proof {
            lemma_as_map_len(self.entries@);
        }
        self.entries.len()
    }

    /// Whether the queue is empty.
    pub fn is_empty(&self) -> (b: bool)
        requires
            self.wf(),
        ensures
            b == (self@ == Map::<u128, i64>::empty()),
    {
        proof {
            lemma_as_map_dom(self.entries@);
            if self.entries@.len() == 0 {
                assert(self@ =~= Map::<u128, i64>::empty());
            } else {
                assert(self@.contains_key(self.entries@[0].id.0));
            }
        }
        self.entries.len() == 0
    }

    /// Whether the account has a queued deadline.
    pub fn contains(&self, id: &AccountId) -> (b: bool)
        ensures
            b == self@.contains_key(id.0),
    {
        proof {
            lemma_as_map_dom(self.entries@);
        }
        let n = self.entries.len();
        for i in 0..n
            invariant
                n == self.entries@.len(),
                forall|j: int| 0 <= j < i ==> self.entries@[j].id.0 != id.0,
                forall|k: u128|
                    self@.contains_key(k) <==> exists|t: int|
                        0 <= t < self.entries@.len() && self.entries@[t].id.0 == k,
        {
            if self.entries[i].id.0 == id.0 {
                return true;
            }
        }
        false
    }

    /// Reads the queued deadline of an account, if it has one.
    pub fn get(&self, id: &AccountId) -> (r: Option<i64>)
        requires
            self.wf(),
        ensures
            match r {
                Some(t) => self@.contains_key(id.0) && t == self@[id.0],
                None => !self@.contains_key(id.0),
            },
    {
        proof {
            lemma_as_map_dom(self.entries@);
        }
        let n = self.entries.len();
        for i in 0..n
            invariant
                n == self.entries@.len(),
                distinct_ids(self.entries@),
                forall|j: int| 0 <= j < i ==> self.entries@[j].id.0 != id.0,
                forall|k: u128|
                    self@.contains_key(k) <==> exists|t: int|
                        0 <= t < self.entries@.len() && self.entries@[t].id.0 == k,
        {
            if self.entries[i].id.0 == id.0 {
                proof {
                    lemma_as_map_index(self.entries@, i as int);
                }
                return Some(self.entries[i].refresh_at);
            }
        }
        None
    }

    /// Queues a deadline for the entry's account, replacing any deadline
    /// the account already had.
    pub fn schedule(&mut self, entry: RefreshEntry)
        requires
            old(self).wf(),
        ensures
            final(self).wf(),
            final(self)@ == old(self)@.insert(entry.id.0, entry.refresh_at),
    {
        let ghost s0 = self.entries@;
        let n = self.entries.len();
        for i in 0..n
            invariant
                self.entries@ == s0,
                old(self).entries@ == s0,
                n == s0.len(),
                distinct_ids(s0),
                forall|j: int| 0 <= j < i ==> s0[j].id.0 != entry.id.0,
        {
            if self.entries[i].id.0 == entry.id.0 {
                self.entries.remove(i);
                proof {
                    lemma_as_map_remove(s0, i as int);
                }
                let ghost s1 = self.entries@;
                self.entries.push(entry);
                proof {
                    assert forall|a: int, b: int| 0 <= a < b < s1.len() implies s1[a].id.0
                        != s1[b].id.0 by {
                        assert(s1[a] == if a < i { s0[a] } else { s0[a + 1] });
                        assert(s1[b] == if b < i { s0[b] } else { s0[b + 1] });
                    }
                    assert forall|a: int| 0 <= a < s1.len() implies s1[a].id.0 != entry.id.0 by {
                        assert(s1[a] == if a < i { s0[a] } else { s0[a + 1] });
                    }
                    let s2 = self.entries@;
                    assert(s2.drop_last() =~= s1);
                    assert(s2.last() == entry);
                    assert(entries_as_map(s2) == entries_as_map(s1).insert(
                        entry.id.0,
                        entry.refresh_at,
                    ));
                    assert(distinct_ids(s2));
                    assert(entries_as_map(s2) =~= entries_as_map(s0).insert(
                        entry.id.0,
                        entry.refresh_at,
                    ));
                }
                return ;
            }
        }
        self.entries.push(entry);
        proof {
            assert(self.entries@.drop_last() =~= s0);
            lemma_as_map_dom(s0);
            assert(distinct_ids(self.entries@));
        }
    }

    /// Reads the earliest queued deadline, without removing it.
    pub fn peek_min(&self) -> (r: Option<i64>)
        requires
            self.wf(),
        ensures
            match r {
                Some(t) => {
                    &&& self@ != Map::<u128, i64>::empty()
                    &&& exists|k: u128| self@.contains_key(k) && self@[k] == t
                    &&& forall|k: u128| self@.contains_key(k) ==> t <= self@[k]
                },
                None => self@ == Map::<u128, i64>::empty(),
            },
    {
        match self.min_index() {
            Some(i) => {
                proof {
                    lemma_as_map_index(self.entries@, i as int);
                    let w = self.entries@[i as int].id.0;
                    assert(self@.contains_key(w) && self@[w] == self.entries@[
                        i as int
                    ].refresh_at);
                    assert(self@ != Map::<u128, i64>::empty());
                }
                Some(self.entries[i].refresh_at)
            },
            None => None,
        }
    }

    /// Removes and returns the entry with the earliest deadline; `None` on
    /// an empty queue. Ties go to the entry queued first.
    pub fn pop_min(&mut self) -> (r: Option<RefreshEntry>)
        requires
            old(self).wf(),
        ensures
            final(self).wf(),
            match r {
                Some(e) => {
                    &&& old(self)@.contains_key(e.id.0)
                    &&& old(self)@[e.id.0] == e.refresh_at
                    &&& forall|k: u128| old(self)@.contains_key(k) ==> e.refresh_at <= old(self)@[k]
                    &&& final(self)@ == old(self)@.remove(e.id.0)
                },
                None => old(self)@ == Map::<u128, i64>::empty() && final(self)@ == old(self)@,
            },
    {
        match self.min_index() {
            Some(i) => {
                proof {
                    lemma_as_map_index(self.entries@, i as int);
                    lemma_as_map_remove(self.entries@, i as int);
                }
                let e = self.entries.remove(i);
                Some(e)
            },
            None => None,
        }
    }

    /// Index of an entry with the smallest deadline, or `None` when empty;
    /// the property is stated at the map level.
    fn min_index(&self) -> (r: Option<usize>)
        requires
            self.wf(),
        ensures
            match r {
                Some(i) => {
                    &&& i < self.entries@.len()
                    &&& forall|k: u128|
                        self@.contains_key(k) ==> self.entries@[i as int].refresh_at <= self@[k]
                },
                None => self.entries@.len() == 0 && self@ == Map::<u128, i64>::empty(),
            },
    {
        let n = self.entries.len();
        if n == 0 {
            proof {
                assert(self@ =~= Map::<u128, i64>::empty());
            }
            return None;
        }
        let mut best: usize = 0;
        for i in 1..n
            invariant
                n == self.entries@.len(),
                best < i <= n,
                forall|j: int|
                    0 <= j < i ==> self.entries@[best as int].refresh_at
                        <= self.entries@[j].refresh_at,
        {
            if self.entries[i].refresh_at < self.entries[best].refresh_at {
                best = i;
            }
        }
        proof {
            lemma_as_map_dom(self.entries@);
            assert forall|k: u128| self@.contains_key(k) implies self.entries@[
                best as int
            ].refresh_at <= self@[k] by {
                let t = choose|t: int|
                    0 <= t < self.entries@.len() && self.entries@[t].id.0 == k;
                lemma_as_map_index(self.entries@, t);
            }
        }
        Some(best)
    }
}

} // verus!

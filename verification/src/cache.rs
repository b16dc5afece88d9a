//! The in-memory per-account cache of fetched documents.
//!
//! One bundle per known account: the summary, the two per-character store
//! maps, the master data, and the wall-clock time of the last successful
//! summary refresh. The cache never evicts; bundles are only inserted and
//! updated in place.

use std::collections::HashMap;

use vstd::prelude::*;

use crate::ids::{AccountId, CharacterId};
use crate::models::{Character, CurrencyType, MasterData, Store, Summary};

verus! {

broadcast use vstd::std_specs::hash::group_hash_axioms;

/// The cached artifacts of one account.
#[derive(Clone, Debug)]
pub struct AccountData {
    /// Wall-clock time of the last successful summary refresh, in
    /// milliseconds since the epoch.
    pub last_updated: i64,
    pub summary: Summary,
    /// Marks store per character, keyed by the character id's value.
    pub marks_store: HashMap<u128, Store>,
    /// Credits store per character, keyed by the character id's value.
    pub credits_store: HashMap<u128, Store>,
    pub master_data: MasterData,
}

impl AccountData {
    /// Assembles a fresh bundle from the documents one populate pass
    /// fetched, stamped with the fetch time.
    pub fn new(
        summary: Summary,
        marks_store: HashMap<u128, Store>,
        credits_store: HashMap<u128, Store>,
        master_data: MasterData,
        now_ms: i64,
    ) -> (r: AccountData)
        ensures
            r.last_updated == now_ms,
            r.summary == summary,
            r.marks_store@ == marks_store@,
            r.credits_store@ == credits_store@,
            r.master_data == master_data,
    {
        AccountData { last_updated: now_ms, summary, marks_store, credits_store, master_data }
    }

    /// Builds the bundle one populate pass yields: the fetched summary and
    /// master data, stamped with the fetch time, and each character's
    /// fetched stores. A character whose store fetch failed is left out of
    /// the corresponding map.
    pub fn assemble(
        summary: Summary,
        marks: Vec<Option<Store>>,
        credits: Vec<Option<Store>>,
        master_data: MasterData,
        now_ms: i64,
    ) -> (r: AccountData)
        requires
            marks@.len() == summary.characters@.len(),
            credits@.len() == summary.characters@.len(),
        ensures
            r.last_updated == now_ms,
            r.summary == summary,
            r.master_data == master_data,
            r.marks_store@ == spec_collect_stores(summary.characters@, marks@),
            r.credits_store@ == spec_collect_stores(summary.characters@, credits@),
    {
        let marks_store = collect_stores(&summary.characters, &marks);
        let credits_store = collect_stores(&summary.characters, &credits);
        AccountData { last_updated: now_ms, summary, marks_store, credits_store, master_data }
    }

    /// The store map for the given currency.
    pub open spec fn spec_store_map(self, currency: CurrencyType) -> Map<u128, Store> {
        match currency {
            CurrencyType::Marks => self.marks_store@,
            CurrencyType::Credits => self.credits_store@,
        }
    }

    /// Reads the cached store of one character for one currency.
    pub fn store_of(&self, currency: CurrencyType, character: CharacterId) -> (r: Option<&Store>)
        ensures
            match r {
                Some(s) => {
                    &&& self.spec_store_map(currency).contains_key(character.0)
                    &&& *s == self.spec_store_map(currency)[character.0]
                },
                None => !self.spec_store_map(currency).contains_key(character.0),
            },
    {
        match currency {
            CurrencyType::Marks => self.marks_store.get(&character.0),
            CurrencyType::Credits => self.credits_store.get(&character.0),
        }
    }
}

/// The stores fetched for a character list, keyed by character id: a failed
/// fetch leaves its character out, and of two characters sharing an id the
/// later one wins.
pub open spec fn spec_collect_stores(chars: Seq<Character>, fetched: Seq<Option<Store>>) -> Map<
    u128,
    Store,
>
    recommends
        chars.len() == fetched.len(),
    decreases chars.len(),
{
    if chars.len() == 0 {
        Map::empty()
    } else {
        let m = spec_collect_stores(chars.drop_last(), fetched.drop_last());
        match fetched[chars.len() - 1] {
            Some(s) => m.insert(chars.last().id.0, s),
            None => m,
        }
    }
}

/// Pairs each character with its fetched store, skipping failed fetches.
fn collect_stores(chars: &Vec<Character>, fetched: &Vec<Option<Store>>) -> (r: HashMap<u128, Store>)
    requires
        chars@.len() == fetched@.len(),
    ensures
        r@ == spec_collect_stores(chars@, fetched@),
{
    let mut map: HashMap<u128, Store> = HashMap::new();
    let n = chars.len();
    for i in 0..n
        invariant
            n == chars@.len(),
            fetched@.len() == chars@.len(),
            map@ == spec_collect_stores(chars@.take(i as int), fetched@.take(i as int)),
    {
        match &fetched[i] {
            Some(store) => {
                map.insert(chars[i].id.0, store.clone());
            },
            None => {},
        }
        proof {
            assert(chars@.take(i + 1).drop_last() =~= chars@.take(i as int));
            assert(fetched@.take(i + 1).drop_last() =~= fetched@.take(i as int));
            assert(chars@.take(i + 1).last() == chars@[i as int]);
            assert(fetched@.take(i + 1)[i as int] == fetched@[i as int]);
        }
    }
    proof {
        assert(chars@.take(n as int) =~= chars@);
        assert(fetched@.take(n as int) =~= fetched@);
    }
    map
}

/// The cache itself: one bundle per known account, keyed by the account
/// id's value.
pub struct Accounts {
    map: HashMap<u128, AccountData>,
}

impl Accounts {
    /// The cache as a map from account id value to bundle.
    pub closed spec fn view(&self) -> Map<u128, AccountData> {
        self.map@
    }

    /// Creates an empty cache.
    pub fn new() -> (r: Accounts)
        ensures
            r@ == Map::<u128, AccountData>::empty(),
    {
        Accounts { map: HashMap::new() }
    }

    /// Whether a bundle for the account is present.
    pub fn contains(&self, id: &AccountId) -> (b: bool)
        ensures
            b == self@.contains_key(id.0),
    {
        self.map.contains_key(&id.0)
    }

    /// Reads the account's bundle.
    pub fn get(&self, id: &AccountId) -> (r: Option<&AccountData>)
        ensures
            match r {
                Some(d) => self@.contains_key(id.0) && *d == self@[id.0],
                None => !self@.contains_key(id.0),
            },
    {
        self.map.get(&id.0)
    }

    /// Inserts the account's bundle, replacing any prior one.
    pub fn insert(&mut self, id: AccountId, data: AccountData)
        ensures
            final(self)@ == old(self)@.insert(id.0, data),
    {
        self.map.insert(id.0, data);
    }

    /// Bumps the account's `last_updated` to `now_ms`, if the account is
    /// present; otherwise leaves the cache unchanged.
    pub fn update_timestamp(&mut self, id: &AccountId, now_ms: i64)
        ensures
            old(self)@.contains_key(id.0) ==> final(self)@ == old(self)@.insert(
                id.0,
                AccountData { last_updated: now_ms, ..old(self)@[id.0] },
            ),
            !old(self)@.contains_key(id.0) ==> final(self)@ == old(self)@,
    {
        match self.map.remove(&id.0) {
            Some(mut data) => {
                data.last_updated = now_ms;
                self.map.insert(id.0, data);
                proof {
                    assert(final(self)@ =~= old(self)@.insert(
                        id.0,
                        AccountData { last_updated: now_ms, ..old(self)@[id.0] },
                    ));
                }
            },
            None => {
                proof {
                    assert(final(self)@ =~= old(self)@);
                }
            },
        }
    }

    /// Reads the account's `last_updated` stamp.
    pub fn timestamp(&self, id: &AccountId) -> (r: Option<i64>)
        ensures
            match r {
                Some(t) => self@.contains_key(id.0) && t == self@[id.0].last_updated,
                None => !self@.contains_key(id.0),
            },
    {
        match self.map.get(&id.0) {
            Some(d) => Some(d.last_updated),
            None => None,
        }
    }

    /// Replaces the account's summary and bumps its `last_updated`, if the
    /// account is present; otherwise leaves the cache unchanged.
    pub fn set_summary(&mut self, id: &AccountId, summary: Summary, now_ms: i64)
        ensures
            old(self)@.contains_key(id.0) ==> final(self)@ == old(self)@.insert(
                id.0,
                AccountData { last_updated: now_ms, summary, ..old(self)@[id.0] },
            ),
            !old(self)@.contains_key(id.0) ==> final(self)@ == old(self)@,
    {
        let ghost s = summary;
        match self.map.remove(&id.0) {
            Some(mut data) => {
                data.last_updated = now_ms;
                data.summary = summary;
                self.map.insert(id.0, data);
                proof {
                    assert(final(self)@ =~= old(self)@.insert(
                        id.0,
                        AccountData { last_updated: now_ms, summary: s, ..old(self)@[id.0] },
                    ));
                }
            },
            None => {
                proof {
                    assert(final(self)@ =~= old(self)@);
                }
            },
        }
    }

    /// Writes one character's store into the account's map for the given
    /// currency, if the account is present; otherwise leaves the cache
    /// unchanged.
    pub fn insert_store(
        &mut self,
        id: &AccountId,
        currency: CurrencyType,
        character: CharacterId,
        store: Store,
    )
        ensures
            old(self)@.contains_key(id.0) ==> {
                &&& final(self)@.dom() == old(self)@.dom()
                &&& final(self)@[id.0].spec_store_map(currency) == old(self)@[id.0].spec_store_map(
                    currency,
                ).insert(character.0, store)
                &&& final(self)@[id.0].spec_store_map(currency.spec_other())
                    == old(self)@[id.0].spec_store_map(currency.spec_other())
                &&& final(self)@[id.0].last_updated == old(self)@[id.0].last_updated
                &&& final(self)@[id.0].summary == old(self)@[id.0].summary
                &&& final(self)@[id.0].master_data == old(self)@[id.0].master_data
                &&& forall|k: u128|
                    k != id.0 && old(self)@.contains_key(k) ==> final(self)@[k] == old(self)@[k]
            },
            !old(self)@.contains_key(id.0) ==> final(self)@ == old(self)@,
    {
        let ghost st = store;
        match self.map.remove(&id.0) {
            Some(mut data) => {
                match currency {
                    CurrencyType::Marks => {
                        data.marks_store.insert(character.0, store);
                    },
                    CurrencyType::Credits => {
                        data.credits_store.insert(character.0, store);
                    },
                }
                self.map.insert(id.0, data);
                proof {
                    assert(final(self)@.dom() =~= old(self)@.dom());
                }
            },
            None => {
                proof {
                    assert(final(self)@ =~= old(self)@);
                }
            },
        }
    }
}

impl CurrencyType {
    /// The other of the two currencies.
    pub open spec fn spec_other(self) -> CurrencyType {
        match self {
            CurrencyType::Marks => CurrencyType::Credits,
            CurrencyType::Credits => CurrencyType::Marks,
        }
    }
}

} // verus!

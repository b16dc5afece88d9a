//! The volatile credential store.
//!
//! A persistent (structurally shared) hash map from account id to
//! credential, as the process-local backend of the storage contract: keyed
//! reads and writes plus a snapshot of all entries for the startup pass.
//! The map itself comes from the `im` crate; each call the store makes is
//! declared below with the contract the crate's source shows.

use vstd::prelude::*;

use crate::auth::Auth;
use crate::ids::AccountId;

verus! {

#[verifier::external_type_specification]
#[verifier::external_body]
#[verifier::reject_recursive_types(K)]
#[verifier::reject_recursive_types(V)]
#[verifier::reject_recursive_types(S)]
pub struct ExImHashMap<K, V, S>(im::HashMap<K, V, S>);

/// What a credential map of the `im` crate holds, keyed by account id
/// value.
pub uninterp spec fn im_auth_entries(m: im::HashMap<u128, Auth>) -> Map<u128, Auth>;

/// Relies on im::HashMap::get: returns the value the key maps to, if any;
/// the value is cloned before it is handed out.
#[verifier::external_body]
fn im_auth_get(m: &im::HashMap<u128, Auth>, k: u128) -> (r: Option<Auth>)
    ensures
        match r {
            Some(v) => im_auth_entries(*m).contains_key(k) && v == im_auth_entries(*m)[k],
            None => !im_auth_entries(*m).contains_key(k),
        },
{
    m.get(&k).cloned()
}

/// Relies on im::HashMap::contains_key: tests whether the key is present.
#[verifier::external_body]
fn im_auth_contains(m: &im::HashMap<u128, Auth>, k: u128) -> (r: bool)
    ensures
        r == im_auth_entries(*m).contains_key(k),
{
    m.contains_key(&k)
}

/// Relies on im::HashMap::insert: maps the key to the value, replacing any
/// prior mapping, and changes nothing else.
#[verifier::external_body]
fn im_auth_insert(m: &mut im::HashMap<u128, Auth>, k: u128, v: Auth)
    ensures
        im_auth_entries(*final(m)) == im_auth_entries(*old(m)).insert(k, v),
{
    m.insert(k, v);
}

/// Relies on im::HashMap::remove: unmaps the key, if present, and changes
/// nothing else.
#[verifier::external_body]
fn im_auth_remove(m: &mut im::HashMap<u128, Auth>, k: u128)
    ensures
        im_auth_entries(*final(m)) == im_auth_entries(*old(m)).remove(k),
{
    m.remove(&k);
}

/// Relies on im::HashMap::keys: the iterator yields each present key once,
/// in no promised order, so its first element is some present key, absent
/// only when the map is empty.
#[verifier::external_body]
fn im_auth_first_key(m: &im::HashMap<u128, Auth>) -> (r: Option<u128>)
    ensures
        match r {
            Some(k) => im_auth_entries(*m).contains_key(k),
            None => im_auth_entries(*m) == Map::<u128, Auth>::empty(),
        },
{
    m.keys().next().copied()
}

/// Relies on im::HashMap::iter: the iterator yields each present entry
/// exactly once, in no promised order; the values are cloned as they are
/// collected.
#[verifier::external_body]
fn im_auth_pairs(m: &im::HashMap<u128, Auth>) -> (r: Vec<(AccountId, Auth)>)
    ensures
        forall|i: int|
            0 <= i < r@.len() ==> #[trigger] im_auth_entries(*m).contains_pair(
                r@[i].0.0,
                r@[i].1,
            ),
        forall|i: int, j: int| 0 <= i < j < r@.len() ==> r@[i].0.0 != r@[j].0.0,
        forall|k: u128|
            #[trigger] im_auth_entries(*m).contains_key(k) ==> exists|i: int|
                0 <= i < r@.len() && r@[i].0.0 == k,
{
    m.iter().map(|(k, v)| (AccountId(*k), v.clone())).collect()
}

/// The volatile backend of the storage contract: a process-local credential
/// map, lost on exit.
pub struct InMemoryAuthStorage {
    auths: im::HashMap<u128, Auth>,
}

impl InMemoryAuthStorage {
    /// The stored credentials as a map from account id value to credential.
    pub closed spec fn view(&self) -> Map<u128, Auth> {
        im_auth_entries(self.auths)
    }

    /// Creates an empty store. Relies on im::HashMap::new: the constructed
    /// map is empty.
    #[verifier::external_body]
    fn new_empty() -> (r: InMemoryAuthStorage)
        ensures
            forall|k: u128| !(#[trigger] r@.contains_key(k)),
    {
        InMemoryAuthStorage { auths: im::HashMap::new() }
    }

    /// Creates an empty store.
    pub fn new() -> (r: InMemoryAuthStorage)
        ensures
            r@ == Map::<u128, Auth>::empty(),
    {
        let r = Self::new_empty();
        proof {
            assert(r@ =~= Map::<u128, Auth>::empty());
        }
        r
    }

    /// Reads the credential stored for the account.
    pub fn get(&self, id: AccountId) -> (r: Option<Auth>)
        ensures
            match r {
                Some(a) => self@.contains_key(id.0) && a == self@[id.0],
                None => !self@.contains_key(id.0),
            },
    {
        im_auth_get(&self.auths, id.0)
    }

    /// Picks some account the store knows, or `None` when it knows none.
    pub fn get_single(&self) -> (r: Option<AccountId>)
        ensures
            match r {
                Some(id) => self@.contains_key(id.0),
                None => self@ == Map::<u128, Auth>::empty(),
            },
    {
        match im_auth_first_key(&self.auths) {
            Some(k) => Some(AccountId(k)),
            None => None,
        }
    }

    /// Whether a credential is stored for the account.
    pub fn contains(&self, id: &AccountId) -> (b: bool)
        ensures
            b == self@.contains_key(id.0),
    {
        im_auth_contains(&self.auths, id.0)
    }

    /// Stores the credential under the account, replacing any prior one.
    pub fn insert(&mut self, id: AccountId, auth: Auth)
        ensures
            final(self)@ == old(self)@.insert(id.0, auth),
    {
        im_auth_insert(&mut self.auths, id.0, auth);
    }

    /// Drops the account's credential, if any.
    pub fn remove(&mut self, id: &AccountId)
        ensures
            final(self)@ == old(self)@.remove(id.0),
    {
        im_auth_remove(&mut self.auths, id.0);
    }

    /// A snapshot of every stored entry: each known account appears exactly
    /// once, paired with its credential, in no promised order.
    pub fn entries(&self) -> (r: Vec<(AccountId, Auth)>)
        ensures
            forall|i: int|
                0 <= i < r@.len() ==> #[trigger] self@.contains_pair(r@[i].0.0, r@[i].1),
            forall|i: int, j: int| 0 <= i < j < r@.len() ==> r@[i].0.0 != r@[j].0.0,
            forall|k: u128|
                #[trigger] self@.contains_key(k) ==> exists|i: int|
                    0 <= i < r@.len() && r@[i].0.0 == k,
    {
        im_auth_pairs(&self.auths)
    }
}

} // verus!

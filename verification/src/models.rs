//! Models of the documents the upstream API serves.
//!
//! The summary is held in full; the store document is opaque except for its
//! rotation deadline, which is the one field the read-through policy
//! inspects, so the store model pairs that deadline with the document text
//! it was read from.

use vstd::prelude::*;
use vstd::string::StringExecFns;

use crate::ids::CharacterId;

verus! {

/// A character's gender as upstream reports it.
#[derive(Clone, Copy, Debug, PartialEq, Eq, Structural)]
pub enum Gender {
    Female,
    Male,
}

/// A hypermedia link inside an upstream document.
#[derive(Clone, Debug)]
pub struct Link {
    pub href: String,
}

/// Email verification state inside a summary.
#[derive(Clone, Copy, Debug, PartialEq, Eq, Structural)]
pub struct Email {
    pub verified: bool,
}

/// Third-party accounts linked to the upstream account.
#[derive(Clone, Debug)]
pub struct LinkedAccounts {
    pub steam: String,
    pub twitch: String,
}

/// Marketing consent flags inside a summary.
#[derive(Clone, Copy, Debug, PartialEq, Eq, Structural)]
pub struct MarketingPreferences {
    pub newsletter_subscribe: bool,
    pub opt_in: bool,
    pub terms_agreed: bool,
}

/// One character of an account, as listed in the account summary.
#[derive(Debug)]
pub struct Character {
    pub id: CharacterId,
    pub name: String,
    pub gender: Gender,
    pub archetype: String,
    pub specialization: String,
    pub level: u32,
}

impl Clone for Character {
    /// A clone carries exactly the same field values.
    fn clone(&self) -> (r: Character)
        ensures
            r == *self,
    {
        Character {
            id: self.id,
            name: self.name.clone(),
            gender: self.gender,
            archetype: self.archetype.clone(),
            specialization: self.specialization.clone(),
            level: self.level,
        }
    }
}

/// The account summary document: profile fields plus the character list the
/// store endpoints search.
#[derive(Clone, Debug)]
pub struct Summary {
    pub links: Vec<(String, Link)>,
    pub username: String,
    pub name: String,
    pub discriminator: String,
    pub allow_rename: bool,
    pub characters: Vec<Character>,
    pub email: Email,
    pub linked_accounts: LinkedAccounts,
    pub marketing_preferences: MarketingPreferences,
}

impl Summary {
    /// Whether some listed character carries the given id.
    pub open spec fn spec_has_character(self, id: CharacterId) -> bool {
        exists|i: int| 0 <= i < self.characters@.len() && self.characters@[i].id == id
    }

    /// Finds the first listed character with the given id.
    pub fn find_character(&self, id: CharacterId) -> (r: Option<&Character>)
        ensures
            match r {
                Some(c) => {
                    &&& self.spec_has_character(id)
                    &&& c.id == id
                    &&& exists|i: int|
                        0 <= i < self.characters@.len() && self.characters@[i] == *c
                },
                None => !self.spec_has_character(id),
            },
    {
        let n = self.characters.len();
        for i in 0..n
            invariant
                n == self.characters@.len(),
                forall|j: int| 0 <= j < i ==> self.characters@[j].id != id,
        {
            if self.characters[i].id == id {
                return Some(&self.characters[i]);
            }
        }
        None
    }
}

/// Pointer to the versioned item master list inside the master data.
#[derive(Clone, Debug)]
pub struct PlayerItems {
    pub href: String,
    pub version: String,
}

/// The master-data document; entirely opaque to the core.
#[derive(Clone, Debug)]
pub struct MasterData {
    pub links: Vec<(String, Link)>,
    pub player_items: PlayerItems,
}

/// Which of the two per-character currency stores is meant.
#[derive(Clone, Copy, Debug, PartialEq, Eq, Structural)]
pub enum CurrencyType {
    Marks,
    Credits,
}

impl CurrencyType {
    /// The lowercase name upstream uses for the currency in store paths.
    pub fn label(&self) -> (s: String)
        ensures
            *self is Marks ==> s@ == "marks"@,
            *self is Credits ==> s@ == "credits"@,
    {
        match self {
            CurrencyType::Marks => String::from_str("marks"),
            CurrencyType::Credits => String::from_str("credits"),
        }
    }
}

/// A price amount inside a store offer.
#[derive(Clone, Copy, Debug, PartialEq, Eq, Structural)]
pub struct Amount {
    pub amount: i32,
    pub amount_type: CurrencyType,
}

/// A perk entry inside a store offer's item description.
#[derive(Clone, Debug)]
pub struct Perk {
    pub id: String,
    pub rarity: i32,
}

/// A per-character store document. Only the rotation deadline is ever
/// inspected; the rest of the document rides along as the text it was read
/// from, served back verbatim.
#[derive(Debug)]
pub struct Store {
    /// End of the current offer rotation, in milliseconds since the epoch.
    pub current_rotation_end: i64,
    /// The full upstream document text, opaque to the core.
    pub document: String,
}

impl Clone for Store {
    /// A clone carries exactly the same field values.
    fn clone(&self) -> (r: Store)
        ensures
            r == *self,
    {
        Store {
            current_rotation_end: self.current_rotation_end,
            document: self.document.clone(),
        }
    }
}

impl Store {
    /// A store still serves its cached rotation strictly before the
    /// rotation's end; at the deadline itself it counts as expired.
    pub open spec fn spec_still_valid(self, now_ms: int) -> bool {
        self.current_rotation_end > now_ms
    }

    /// Tests whether the cached rotation is still current at `now_ms`.
    pub fn still_valid(&self, now_ms: i64) -> (b: bool)
        ensures
            b == self.spec_still_valid(now_ms as int),
    {
        self.current_rotation_end > now_ms
    }
}

} // verus!

use std::collections::HashMap;

use dt_fetcher::cache::AccountData;
use dt_fetcher::ids::CharacterId;
use dt_fetcher::models::{Character, Email, Gender, LinkedAccounts, MarketingPreferences,
    MasterData, PlayerItems, Store, Summary};

fn character(id: u128, archetype: &str) -> Character {
    Character {
        id: CharacterId(id),
        name: String::from("char"),
        gender: Gender::Female,
        archetype: String::from(archetype),
        specialization: String::from("base"),
        level: 10,
    }
}

fn summary_with(characters: Vec<Character>) -> Summary {
    Summary {
        links: Vec::new(),
        username: String::from("user"),
        name: String::from("name"),
        discriminator: String::from("0001"),
        allow_rename: true,
        characters,
        email: Email { verified: false },
        linked_accounts: LinkedAccounts { steam: String::new(), twitch: String::new() },
        marketing_preferences: MarketingPreferences {
            newsletter_subscribe: true,
            opt_in: false,
            terms_agreed: true,
        },
    }
}

fn store(rotation_end: i64, doc: &str) -> Store {
    Store { current_rotation_end: rotation_end, document: String::from(doc) }
}

#[test]
fn find_character_returns_the_match() {
    let s = summary_with(vec![character(1, "zealot"), character(2, "ogryn")]);
    let c = s.find_character(CharacterId(2)).expect("listed");
    assert_eq!(c.archetype, "ogryn");
    assert!(s.find_character(CharacterId(3)).is_none());
}

#[test]
fn store_validity_is_strict() {
    let s = store(100, "{}");
    assert!(s.still_valid(99));
    assert!(!s.still_valid(100));
    assert!(!s.still_valid(101));
}

#[test]
fn assemble_skips_failed_fetches() {
    let summary = summary_with(vec![character(1, "zealot"), character(2, "ogryn")]);
    let marks = vec![Some(store(500, "m1")), None];
    let credits = vec![None, Some(store(700, "c2"))];
    let md = MasterData {
        links: Vec::new(),
        player_items: PlayerItems { href: String::from("h"), version: String::from("1") },
    };
    let data = AccountData::assemble(summary, marks, credits, md, 42);
    assert_eq!(data.last_updated, 42);
    assert_eq!(data.marks_store.len(), 1);
    assert_eq!(data.marks_store.get(&1).unwrap().document, "m1");
    assert!(data.marks_store.get(&2).is_none());
    assert_eq!(data.credits_store.len(), 1);
    assert_eq!(data.credits_store.get(&2).unwrap().document, "c2");
}

#[test]
fn assemble_later_duplicate_wins() {
    // two characters sharing an id: the later one's store is kept
    let summary = summary_with(vec![character(5, "zealot"), character(5, "ogryn")]);
    let marks = vec![Some(store(100, "first")), Some(store(200, "second"))];
    let credits = vec![None, None];
    let md = MasterData {
        links: Vec::new(),
        player_items: PlayerItems { href: String::from("h"), version: String::from("1") },
    };
    let data = AccountData::assemble(summary, marks, credits, md, 0);
    assert_eq!(data.marks_store.len(), 1);
    assert_eq!(data.marks_store.get(&5).unwrap().document, "second");
    assert!(data.credits_store.is_empty());
}

#[test]
fn account_data_new_keeps_fields() {
    let mut marks = HashMap::new();
    marks.insert(3u128, store(9, "x"));
    let md = MasterData {
        links: Vec::new(),
        player_items: PlayerItems { href: String::from("a"), version: String::from("b") },
    };
    let data = AccountData::new(summary_with(vec![]), marks, HashMap::new(), md, 7);
    assert_eq!(data.last_updated, 7);
    assert_eq!(data.summary.username, "user");
    assert_eq!(data.marks_store.get(&3).unwrap().current_rotation_end, 9);
    assert_eq!(data.master_data.player_items.href, "a");
}

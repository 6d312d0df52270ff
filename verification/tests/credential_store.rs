//! The local credential store.

use corevisor::credential_store::{stored_document, CredentialStore};
use corevisor::types::CredentialEntry;

fn entry(profile_id: &str, domain: &str, value: &str) -> CredentialEntry {
    CredentialEntry {
        profile_id: profile_id.to_string(),
        domain: domain.to_string(),
        header_name: "Authorization".to_string(),
        header_value: value.to_string(),
    }
}

fn values(entries: &[CredentialEntry]) -> Vec<String> {
    entries.iter().map(|e| e.header_value.clone()).collect()
}

#[test]
fn set_then_get() {
    let mut store = CredentialStore::from_entries(vec![]);
    store.set(entry("p", "a.com", "one"));
    store.set(entry("p", "b.com", "two"));
    store.set(entry("q", "a.com", "three"));
    assert_eq!(store.get("p", "a.com").unwrap().header_value, "one");
    assert_eq!(store.get("p", "b.com").unwrap().header_value, "two");
    assert_eq!(store.get("q", "a.com").unwrap().header_value, "three");
    assert!(store.get("q", "b.com").is_none());
}

#[test]
fn set_replaces_and_moves_to_the_end() {
    let mut store = CredentialStore::from_entries(vec![
        entry("p", "a.com", "old"),
        entry("p", "b.com", "b"),
        entry("p", "a.com", "older"),
    ]);
    store.set(entry("p", "a.com", "new"));
    assert_eq!(values(store.entries()), vec!["b", "new"]);
}

#[test]
fn get_finds_the_first_of_several() {
    let store = CredentialStore::from_entries(vec![
        entry("p", "a.com", "first"),
        entry("p", "a.com", "second"),
    ]);
    assert_eq!(store.get("p", "a.com").unwrap().header_value, "first");
}

#[test]
fn delete_removes_every_match_and_nothing_else() {
    let mut store = CredentialStore::from_entries(vec![
        entry("p", "a.com", "1"),
        entry("q", "a.com", "2"),
        entry("p", "a.com", "3"),
        entry("p", "b.com", "4"),
    ]);
    store.delete("p", "a.com");
    assert_eq!(values(store.entries()), vec!["2", "4"]);
    assert!(store.get("p", "a.com").is_none());
    store.delete("p", "a.com");
    assert_eq!(values(store.entries()), vec!["2", "4"]);
}

#[test]
fn list_shows_one_profile_in_order() {
    let store = CredentialStore::from_entries(vec![
        entry("p", "b.com", "1"),
        entry("q", "a.com", "2"),
        entry("p", "a.com", "3"),
    ]);
    assert_eq!(values(&store.list("p")), vec!["1", "3"]);
    assert_eq!(values(&store.list("q")), vec!["2"]);
    assert!(store.list("r").is_empty());
}

#[test]
fn setting_in_one_profile_leaves_the_list_of_another() {
    let mut store = CredentialStore::from_entries(vec![entry("q", "a.com", "2")]);
    store.set(entry("p", "a.com", "1"));
    assert_eq!(values(&store.list("q")), vec!["2"]);
}

#[test]
fn blank_file_holds_no_document() {
    assert_eq!(stored_document(None), None);
    assert_eq!(stored_document(Some(String::new())), None);
    assert_eq!(stored_document(Some(" \n\t\u{a0}\u{3000}".to_string())), None);
    assert_eq!(
        stored_document(Some(" [] ".to_string())),
        Some(" [] ".to_string())
    );
}

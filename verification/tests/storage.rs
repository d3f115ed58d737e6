use project_nft::storage::{DataKey, Storage, Value};
use project_nft::types::{Address, ProjectMetadata};

fn addr(text: &str) -> Address {
    Address::new(String::from(text))
}

#[test]
fn get_of_missing_key_is_none() {
    let store = Storage::new();
    assert!(store.get(&DataKey::Admin).is_none());
    assert!(store.get(&DataKey::Owner(1)).is_none());
    assert!(!store.has(&DataKey::NextTokenId));
}

#[test]
fn set_then_get_returns_the_value() {
    let mut store = Storage::new();
    store.set(DataKey::Admin, Value::Addr(addr("A")));
    store.set(DataKey::NextTokenId, Value::Count(7));
    assert_eq!(store.get(&DataKey::Admin), Some(&Value::Addr(addr("A"))));
    assert_eq!(store.get(&DataKey::NextTokenId), Some(&Value::Count(7)));
    assert!(store.has(&DataKey::Admin));
    assert!(!store.has(&DataKey::Owner(1)));
}

#[test]
fn set_overwrites_an_existing_key() {
    let mut store = Storage::new();
    store.set(DataKey::NextTokenId, Value::Count(1));
    store.set(DataKey::NextTokenId, Value::Count(2));
    assert_eq!(store.get(&DataKey::NextTokenId), Some(&Value::Count(2)));
}

#[test]
fn keys_with_different_payloads_do_not_collide() {
    let mut store = Storage::new();
    store.set(DataKey::Owner(1), Value::Addr(addr("B")));
    store.set(DataKey::Owner(2), Value::Addr(addr("C")));
    store.set(
        DataKey::Metadata(1),
        Value::Meta(ProjectMetadata {
            project_id: String::from("p"),
            ipfs_cid: String::from("c"),
        }),
    );
    assert_eq!(store.get(&DataKey::Owner(1)), Some(&Value::Addr(addr("B"))));
    assert_eq!(store.get(&DataKey::Owner(2)), Some(&Value::Addr(addr("C"))));
    assert!(store.has(&DataKey::Metadata(1)));
    assert!(!store.has(&DataKey::Metadata(2)));
}

#[test]
fn remove_deletes_the_entry() {
    let mut store = Storage::new();
    store.set(DataKey::Owner(1), Value::Addr(addr("B")));
    store.set(DataKey::Owner(2), Value::Addr(addr("C")));
    store.remove(&DataKey::Owner(1));
    assert!(store.get(&DataKey::Owner(1)).is_none());
    assert_eq!(store.get(&DataKey::Owner(2)), Some(&Value::Addr(addr("C"))));
    // Removing an absent key is harmless.
    store.remove(&DataKey::Owner(1));
    assert!(!store.has(&DataKey::Owner(1)));
}

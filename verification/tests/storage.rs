use secret_store::json::ToJson;
use secret_store::storage::{MemStorage, Secret, SecretType, Storage};

fn secret(domain: &str, username: &str, password: &str) -> Secret {
    Secret::new(
        SecretType::Password,
        String::from(domain),
        String::from(username),
        String::from(password),
    )
}

#[test]
fn set_then_get_returns_what_was_set() {
    let mut store = MemStorage::new();
    let s = secret("example.com", "alice", "first-pass");
    assert!(store.set(s.clone()).is_ok());
    assert_eq!(store.get("example.com").ok().unwrap(), Some(s));
}

#[test]
fn get_of_an_absent_domain_is_none() {
    let mut store = MemStorage::new();
    assert_eq!(store.get("example.com").ok().unwrap(), None);
    store.set(secret("example.com", "alice", "first-pass")).ok().unwrap();
    assert_eq!(store.get("example.org").ok().unwrap(), None);
    assert_eq!(store.get("").ok().unwrap(), None);
}

#[test]
fn second_set_replaces_the_first() {
    let mut store = MemStorage::new();
    store.set(secret("example.com", "alice", "first-pass")).ok().unwrap();
    store.set(secret("other.net", "carol", "third-pass")).ok().unwrap();
    store.set(secret("example.com", "bob", "second-pass")).ok().unwrap();
    assert_eq!(
        store.get("example.com").ok().unwrap(),
        Some(secret("example.com", "bob", "second-pass"))
    );
    let all = store.get_all().ok().unwrap();
    assert_eq!(all.len(), 2);
    let matching: Vec<&Secret> = all.iter().filter(|s| s.domain == "example.com").collect();
    assert_eq!(matching.len(), 1);
    assert_eq!(matching[0].username, "bob");
    assert_eq!(matching[0].password, "second-pass");
    assert!(all.contains(&secret("other.net", "carol", "third-pass")));
}

#[test]
fn delete_says_whether_a_record_was_there() {
    let mut store = MemStorage::new();
    assert_eq!(store.delete("example.com").ok().unwrap(), false);
    store.set(secret("example.com", "alice", "first-pass")).ok().unwrap();
    store.set(secret("other.net", "carol", "third-pass")).ok().unwrap();
    assert_eq!(store.delete("example.com").ok().unwrap(), true);
    assert_eq!(store.get("example.com").ok().unwrap(), None);
    assert_eq!(store.delete("example.com").ok().unwrap(), false);
    assert_eq!(
        store.get("other.net").ok().unwrap(),
        Some(secret("other.net", "carol", "third-pass"))
    );
    assert_eq!(store.get_all().ok().unwrap().len(), 1);
}

#[test]
fn new_store_is_empty() {
    let store = MemStorage::new();
    assert!(store.get_all().ok().unwrap().is_empty());
}

#[test]
fn secret_json_has_the_four_fields_in_order() {
    let s = secret("example.com", "alice", "first-pass");
    assert_eq!(
        s.to_json(),
        "{\"type\":\"password\",\"domain\":\"example.com\",\"username\":\"alice\",\"password\":\"first-pass\"}"
    );
}

#[test]
fn secrets_are_equal_when_all_fields_are() {
    assert_eq!(secret("a", "b", "c"), secret("a", "b", "c"));
    assert_ne!(secret("a", "b", "c"), secret("a", "b", "d"));
    assert_ne!(secret("a", "b", "c"), secret("a", "x", "c"));
    assert_ne!(secret("a", "b", "c"), secret("x", "b", "c"));
}

#[test]
fn list_of_secrets_is_a_json_array() {
    let none: Vec<Secret> = Vec::new();
    assert_eq!(none.to_json(), "[]");
    let two = vec![secret("a", "b", "c"), secret("d", "e", "f")];
    assert_eq!(
        two.to_json(),
        "[{\"type\":\"password\",\"domain\":\"a\",\"username\":\"b\",\"password\":\"c\"},\
         {\"type\":\"password\",\"domain\":\"d\",\"username\":\"e\",\"password\":\"f\"}]"
    );
}

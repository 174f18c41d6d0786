use secret_store::config::DbConfig;
use secret_store::document::{gather, removed, COLL_NAME};
use secret_store::error::StorageError;
use secret_store::storage::{Secret, SecretType};

fn secret(domain: &str) -> Secret {
    Secret::new(SecretType::Password, String::from(domain), String::from("u"), String::from("p"))
}

fn failure(detail: &str) -> StorageError {
    StorageError::new(String::from(detail))
}

#[test]
fn secrets_live_in_one_collection() {
    assert_eq!(COLL_NAME, "secrets");
}

#[test]
fn gather_keeps_every_decoded_secret_in_order() {
    assert!(gather(&vec![]).ok().unwrap().is_empty());
    let all = gather(&vec![Ok(secret("a")), Ok(secret("b")), Ok(secret("c"))]).ok().unwrap();
    assert_eq!(all, vec![secret("a"), secret("b"), secret("c")]);
}

#[test]
fn gather_fails_with_the_first_failure() {
    let r = gather(&vec![Ok(secret("a")), Err(failure("first")), Ok(secret("c")), Err(failure("second"))]);
    assert_eq!(r.err().unwrap().detail, "first");
    let r = gather(&vec![Err(failure("only"))]);
    assert_eq!(r.err().unwrap().detail, "only");
}

#[test]
fn a_deletion_removed_a_record_if_it_deleted_a_document() {
    assert!(removed(1));
    assert!(removed(2));
    assert!(!removed(0));
    assert!(!removed(-1));
}

fn config(username: Option<&str>, password: Option<&str>) -> DbConfig {
    DbConfig {
        host: String::from("localhost"),
        port: 27017,
        dbname: String::from("secrets"),
        username: username.map(String::from),
        password: password.map(String::from),
        pool_size: 4,
    }
}

#[test]
fn credentials_need_both_user_name_and_password() {
    assert_eq!(config(Some("u"), Some("p")).credentials(), Some(("u", "p")));
    assert_eq!(config(Some("u"), None).credentials(), None);
    assert_eq!(config(None, Some("p")).credentials(), None);
    assert_eq!(config(None, None).credentials(), None);
}

use examparse::credentials::{CredentialError, CredentialStore};

// With no platform keystore enabled, keyring's default store is its mock
// store, which persists a secret for the lifetime of one entry. The store
// below holds its one entry, so the protocol can be exercised end to end.

#[test]
fn save_then_load_returns_the_secret() {
    let store = CredentialStore::open().unwrap();
    store.save_api_key("SECRET-REDACTED").unwrap();
    let got = store.load_api_key().unwrap();
    assert_eq!(got, "SECRET-REDACTED");
}

#[test]
fn delete_then_load_reports_not_found() {
    let store = CredentialStore::open().unwrap();
    store.save_api_key("SECRET-REDACTED").unwrap();
    store.delete_api_key().unwrap();
    let r = store.load_api_key();
    assert!(matches!(r, Err(CredentialError::NotFound)));
}

#[test]
fn load_before_any_save_reports_not_found() {
    let store = CredentialStore::open().unwrap();
    let r = store.load_api_key();
    assert!(matches!(r, Err(CredentialError::NotFound)));
}

#[test]
fn delete_of_absent_secret_reports_not_found() {
    let store = CredentialStore::open().unwrap();
    let r = store.delete_api_key();
    assert!(matches!(r, Err(CredentialError::NotFound)));
}

#[test]
fn save_overwrites_the_previous_secret() {
    let store = CredentialStore::open().unwrap();
    store.save_api_key("SECRET-REDACTED").unwrap();
    store.save_api_key("SECRET-REDACTED-2").unwrap();
    assert_eq!(store.load_api_key().unwrap(), "SECRET-REDACTED-2");
}

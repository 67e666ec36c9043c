//! The one stored secret, kept in the operating system's credential facility
//! under a fixed service and account identity. The store decides each call's
//! outcome; what this module guarantees is the meaning of every outcome: a
//! found secret is returned, an absent one is the distinct not-found
//! condition, and a backend failure keeps its description.

use vstd::prelude::*;

verus! {

/// The fixed service name of the one credential entry.
pub const SERVICE_NAME: &'static str = "examparse";

/// The fixed account name of the one credential entry.
pub const ACCOUNT_NAME: &'static str = "openai_api_key";

/// Failures of the credential store: the secret was never stored (distinct,
/// so callers can say "not configured yet"), or the secure-storage backend
/// failed, with its description.
#[derive(Debug)]
pub enum CredentialError {
    NotFound,
    Backend(String),
}

#[verifier::external_type_specification]
#[verifier::external_body]
pub struct ExEntry(keyring::Entry);

/// Relies on keyring::Entry::new: builds the credential-store entry for one
/// service and account identity.
#[verifier::external_body]
fn entry_for(service: &str, account: &str) -> (r: Result<keyring::Entry, String>) {
    match keyring::Entry::new(service, account) {
        Ok(e) => Ok(e),
        Err(err) => Err(format!("{}", err)),
    }
}

/// Relies on keyring::Entry::set_password: stores the secret under the
/// entry's identity, replacing any previous one.
#[verifier::external_body]
fn entry_set_password(e: &keyring::Entry, secret: &str) -> (r: Result<(), String>) {
    match e.set_password(secret) {
        Ok(()) => Ok(()),
        Err(err) => Err(format!("{}", err)),
    }
}

/// Relies on keyring::Entry::get_password: returns the stored secret, a
/// distinct `NoEntry` outcome when none was ever stored, and the backend's
/// error otherwise.
#[verifier::external_body]
fn entry_get_password(e: &keyring::Entry) -> (r: Result<Option<String>, String>) {
    match e.get_password() {
        Ok(s) => Ok(Some(s)),
        Err(keyring::Error::NoEntry) => Ok(None),
        Err(err) => Err(format!("{}", err)),
    }
}

/// Relies on keyring::Entry::delete_credential: removes the stored secret;
/// `NoEntry` when none exists.
#[verifier::external_body]
fn entry_delete(e: &keyring::Entry) -> (r: Result<bool, String>) {
    match e.delete_credential() {
        Ok(()) => Ok(true),
        Err(keyring::Error::NoEntry) => Ok(false),
        Err(err) => Err(format!("{}", err)),
    }
}

/// What a lookup outcome means: a found secret is the result; an absent one
/// is the distinct not-found condition, never a generic failure; a backend
/// failure keeps its description.
pub fn classify_lookup(outcome: Result<Option<String>, String>) -> (r: Result<
    String,
    CredentialError,
>)
    ensures
        outcome matches Ok(Some(s)) ==> (r matches Ok(t) && t == s),
        outcome matches Ok(None) ==> (r matches Err(e) && e is NotFound),
        outcome matches Err(m) ==> (r matches Err(e) && e matches CredentialError::Backend(b) && b
            == m),
{
    match outcome {
        Ok(Some(s)) => Ok(s),
        Ok(None) => Err(CredentialError::NotFound),
        Err(m) => Err(CredentialError::Backend(m)),
    }
}

/// What a removal outcome means: a removal succeeds exactly when a secret was
/// there; removing an absent secret is the distinct not-found condition; a
/// backend failure keeps its description.
pub fn classify_removal(outcome: Result<bool, String>) -> (r: Result<(), CredentialError>)
    ensures
        outcome matches Ok(true) ==> r is Ok,
        outcome matches Ok(false) ==> (r matches Err(e) && e is NotFound),
        outcome matches Err(m) ==> (r matches Err(e) && e matches CredentialError::Backend(b) && b
            == m),
{
    match outcome {
        Ok(true) => Ok(()),
        Ok(false) => Err(CredentialError::NotFound),
        Err(m) => Err(CredentialError::Backend(m)),
    }
}

/// The store of the one secret: it owns the credential entry for the fixed
/// service and account identity, and every operation goes through that entry.
pub struct CredentialStore {
    entry: keyring::Entry,
}

impl CredentialStore {
    /// Opens the store's entry under the fixed identity. A failure is always
    /// a backend failure, never not-found.
    pub fn open() -> (r: Result<CredentialStore, CredentialError>)
        ensures
            r matches Err(e) ==> e is Backend,
    {
        match entry_for(SERVICE_NAME, ACCOUNT_NAME) {
            Err(m) => Err(CredentialError::Backend(m)),
            Ok(entry) => Ok(CredentialStore { entry }),
        }
    }

    /// Stores the secret, replacing any previous one. The credential store
    /// decides the outcome; a failure is always a backend failure, never
    /// not-found.
    pub fn save_api_key(&self, api_key: &str) -> (r: Result<(), CredentialError>)
        ensures
            r matches Err(e) ==> e is Backend,
    {
        match entry_set_password(&self.entry, api_key) {
            Ok(()) => Ok(()),
            Err(m) => Err(CredentialError::Backend(m)),
        }
    }

    /// Reads the stored secret. An absent secret is the distinct not-found
    /// condition, as `classify_lookup` states; the credential store decides
    /// which outcome comes back.
    pub fn load_api_key(&self) -> (r: Result<String, CredentialError>) {
        classify_lookup(entry_get_password(&self.entry))
    }

    /// Removes the stored secret. Removing an absent secret is the distinct
    /// not-found condition, as `classify_removal` states; the credential
    /// store decides which outcome comes back.
    pub fn delete_api_key(&self) -> (r: Result<(), CredentialError>) {
        classify_removal(entry_delete(&self.entry))
    }
}

} // verus!

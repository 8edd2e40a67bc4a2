//! Credential retriever: looks up the SMTP password in the platform's secure
//! credential store under the (service, account) pair named by the
//! configuration. The store is an external service whose answer depends on
//! machine state, so the store calls are trusted and say nothing about which
//! outcome comes back; the mapping from outcome to pipeline result is
//! verified for every outcome.

use vstd::prelude::*;

use crate::errors::MailError;

verus! {

/// What one read-only query of the credential store can yield.
pub enum CredentialOutcome {
    /// A secret is stored under the pair; this is its value.
    Found(String),
    /// The store answered, but no secret is stored under the pair.
    Missing,
    /// The store itself could not be reached; the cause text.
    Unavailable(String),
}

/// The platform credential-store entry handle.
#[verifier::external_type_specification]
#[verifier::external_body]
pub struct ExEntry(keyring::Entry);

/// Relies on `keyring::Entry::new`: builds a handle for the entry addressed
/// by (service, account) in the default platform store, or reports why the
/// store cannot be used. Which side comes back depends on the platform, so
/// nothing is promised of it.
#[verifier::external_body]
fn keyring_entry_new(service: &str, account: &str) -> (r: Result<keyring::Entry, String>) {
    match keyring::Entry::new(service, account) {
        Ok(entry) => Ok(entry),
        Err(e) => Err(e.to_string()),
    }
}

/// Relies on `keyring::Entry::get_password`: a read-only query that returns
/// the stored secret, reports that none is stored (`NoEntry`), or fails
/// because the store cannot be reached. The answer depends on what the store
/// holds, so nothing is promised of it.
#[verifier::external_body]
fn keyring_get_password(entry: &keyring::Entry) -> (r: CredentialOutcome) {
    match entry.get_password() {
        Ok(secret) => CredentialOutcome::Found(secret),
        Err(keyring::Error::NoEntry) => CredentialOutcome::Missing,
        Err(e) => CredentialOutcome::Unavailable(e.to_string()),
    }
}

/// Maps a store outcome to the pipeline result: the secret on success,
/// `CredentialNotFound` naming the queried pair when no secret is stored,
/// `CredentialStoreUnavailable` with the cause when the store is out of
/// reach. Exactly these, if and only if.
pub fn credential_from_outcome(
    outcome: CredentialOutcome,
    service: &str,
    account: &str,
) -> (r: Result<String, MailError>)
    ensures
        match outcome {
            CredentialOutcome::Found(secret) => r == Ok::<String, MailError>(secret),
            CredentialOutcome::Missing => (r matches Err(e) && e matches
                MailError::CredentialNotFound { service: s, account: a } && s@ == service@ && a@
                == account@),
            CredentialOutcome::Unavailable(cause) => (r matches Err(e) && e matches
                MailError::CredentialStoreUnavailable { cause: c } && c == cause),
        },
{
    match outcome {
        CredentialOutcome::Found(secret) => Ok(secret),
        CredentialOutcome::Missing => Err(
            MailError::CredentialNotFound { service: service.to_owned(), account: account.to_owned() },
        ),
        CredentialOutcome::Unavailable(cause) => Err(
            MailError::CredentialStoreUnavailable { cause },
        ),
    }
}

/// Queries the store once, with no caching and no writes, and maps the
/// outcome. Whatever the store answered, a failure is one of the two
/// credential error kinds, and `CredentialNotFound` names exactly the
/// queried pair.
pub fn retrieve_credential(service: &str, account: &str) -> (r: Result<String, MailError>)
    ensures
        r matches Err(e) ==> match e {
            MailError::CredentialNotFound { service: s, account: a } => s@ == service@ && a@
                == account@,
            MailError::CredentialStoreUnavailable { .. } => true,
            _ => false,
        },
{
    match keyring_entry_new(service, account) {
        Ok(entry) => {
            let outcome = keyring_get_password(&entry);
            credential_from_outcome(outcome, service, account)
        },
        Err(cause) => Err(MailError::CredentialStoreUnavailable { cause }),
    }
}

} // verus!

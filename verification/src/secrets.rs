//! Profile secrets: the system keychain first, a file in the application's data directory
//! as the fallback. The keychain is reached through the `keyring` crate; the fallback file
//! is read and written by the caller, which hands the outcome back.
use vstd::prelude::*;

use crate::text::{chars_of, is_blank, owned, push_str, string_of};

verus! {

#[verifier::external_type_specification]
#[verifier::external_body]
pub struct ExKeyringEntry(keyring::Entry);

#[verifier::external_type_specification]
#[verifier::external_body]
pub struct ExKeyringError(keyring::Error);

/// `keyring::Entry::new(service, user)`: depends on the platform's credential store, so
/// nothing is stated of the result.
#[verifier::external_body]
fn keyring_entry(service: &str, user: &str) -> Result<keyring::Entry, keyring::Error> {
    keyring::Entry::new(service, user)
}

/// `Entry::set_password`: the store decides; nothing is stated of the result.
#[verifier::external_body]
fn keyring_set_password(entry: &keyring::Entry, secret: &str) -> Result<(), keyring::Error> {
    entry.set_password(secret)
}

/// `Entry::get_password`: the store decides; nothing is stated of the result.
#[verifier::external_body]
fn keyring_get_password(entry: &keyring::Entry) -> Result<String, keyring::Error> {
    entry.get_password()
}

/// `Entry::delete_credential`: the store decides; nothing is stated of the result.
#[verifier::external_body]
fn keyring_delete_credential(entry: &keyring::Entry) -> Result<(), keyring::Error> {
    entry.delete_credential()
}

/// The message of a `keyring::Error` (its `Display`), which carries the platform's own
/// words; nothing is stated of it.
#[verifier::external_body]
fn keyring_error_text(error: &keyring::Error) -> String {
    error.to_string()
}

/// How reading or writing a secret fails.
pub enum SecretError {
    /// The keychain could not be used.
    Access(String),
    /// The fallback file could not be read or written.
    Io(String),
    /// No secret is stored.
    Missing,
}

impl SecretError {
    /// The message of the error.
    pub fn message(&self) -> (r: String)
        ensures
            r@ == match self {
                SecretError::Access(e) => "failed to access secure secret storage: "@ + e@,
                SecretError::Io(e) => "failed to persist fallback secret file: "@ + e@,
                SecretError::Missing => "no stored secret found"@,
            },
    {
        match self {
            SecretError::Access(e) => {
                let mut m = chars_of("failed to access secure secret storage: ");
                push_str(&mut m, e.as_str());
                string_of(&m)
            },
            SecretError::Io(e) => {
                let mut m = chars_of("failed to persist fallback secret file: ");
                push_str(&mut m, e.as_str());
                string_of(&m)
            },
            SecretError::Missing => owned("no stored secret found"),
        }
    }
}

/// The keychain user of a profile's secret.
pub open spec fn entry_user_spec(profile_id: Seq<char>) -> Seq<char> {
    "connection-profile:"@ + profile_id
}

fn entry_user(profile_id: &str) -> (r: String)
    ensures r@ == entry_user_spec(profile_id@),
{
    let mut m = chars_of("connection-profile:");
    push_str(&mut m, profile_id);
    string_of(&m)
}

fn entry_for_profile(profile_id: &str) -> Result<keyring::Entry, keyring::Error> {
    let user = entry_user(profile_id);
    keyring_entry("adbchelper", user.as_str())
}

/// The fallback file of a profile's secret: `{profile_id}.secret` in the `secrets`
/// directory of the data directory (spelled out for a plain id and an ordinary base).
pub open spec fn fallback_at(p: Seq<char>, app_data_dir: Seq<char>, profile_id: Seq<char>) -> bool {
    crate::tools::plain_name(profile_id) ==> {
        &&& crate::text::ends_with(p, profile_id + ".secret"@)
        &&& crate::system::ordinary_path(app_data_dir) ==> exists|d: Seq<char>|
            #[trigger] crate::system::pushed(d, app_data_dir, "secrets"@)
            && crate::system::pushed(p, d, profile_id + ".secret"@)
    }
}

/// `fallback_secret_path`: `secrets/{profile_id}.secret` in the data directory.
pub fn fallback_secret_path(app_data_dir: &str, profile_id: &str) -> (r: String)
    ensures fallback_at(r@, app_data_dir@, profile_id@),
{
    proof {
        reveal_strlit("secrets");
        reveal_strlit(".secret");
        assert(crate::tools::plain_name("secrets"@));
        crate::tools::lemma_plain_ordinary("secrets"@);
    }
    let dir = crate::system::join_path(app_data_dir, "secrets");
    let mut name = chars_of(profile_id);
    push_str(&mut name, ".secret");
    let file = string_of(&name);
    let r = crate::system::join_path(dir.as_str(), file.as_str());
    proof {
        if crate::tools::plain_name(profile_id@) {
            assert forall|i: int| 0 <= i < file@.len() implies file@[i] != '/' && file@[i] != '\\' && file@[i] != ':'
                && file@[i] != '?' by {
                if i < profile_id@.len() {
                    assert(file@[i] == profile_id@[i]);
                }
            }
            assert(crate::tools::plain_name(file@));
            if crate::system::ordinary_path(app_data_dir@) {
                crate::system::lemma_joined(dir@, app_data_dir@, "secrets"@);
                assert(crate::system::pushed(r@, dir@, file@));
            }
        }
    }
    r
}

/// What remains of storing a secret once the keychain has been tried: the keychain's
/// error, if any, and the fallback file to write, when there is a data directory.
pub struct SecretWrite {
    pub keyring_error: Option<String>,
    pub fallback_path: Option<String>,
}

/// `set_profile_secret`, its keychain part: the secret is stored in the keychain entry of
/// the profile; the fallback file is left to the caller.
pub fn set_profile_secret(app_data_dir: Option<&str>, profile_id: &str, secret: &str) -> (r: SecretWrite)
    ensures
        (r.fallback_path is Some) == (app_data_dir is Some),
        r.fallback_path matches Some(p) ==> fallback_at(p@, app_data_dir->Some_0@, profile_id@),
{
    let keyring_error = match entry_for_profile(profile_id) {
        Ok(entry) => match keyring_set_password(&entry, secret) {
            Ok(()) => None,
            Err(e) => Some(keyring_error_text(&e)),
        },
        Err(e) => Some(keyring_error_text(&e)),
    };
    let fallback_path = match app_data_dir {
        Some(d) => Some(fallback_secret_path(d, profile_id)),
        None => None,
    };
    SecretWrite { keyring_error, fallback_path }
}

/// The outcome of storing a secret, given the outcome of writing the fallback file (when
/// one was to be written): a failed write first, then the keychain's error, noting the
/// fallback when one was written.
pub fn finish_set_profile_secret(write: &SecretWrite, fallback_result: Option<Result<(), String>>) -> (r: Result<(), SecretError>)
    ensures
        match fallback_result {
            Some(Err(e)) => r matches Err(SecretError::Io(m)) && m@ == e@,
            _ => match write.keyring_error {
                Some(err) => r matches Err(SecretError::Access(m)) && m@ == "system keychain unavailable"@
                    + (if write.fallback_path is Some { ", stored secret in app data fallback instead"@ } else { ""@ })
                    + ": "@ + err@,
                None => r is Ok,
            },
        },
{
    match fallback_result {
        Some(Err(e)) => return Err(SecretError::Io(e)),
        _ => {},
    }
    match &write.keyring_error {
        Some(err) => {
            let mut m = chars_of("system keychain unavailable");
            push_str(&mut m, if write.fallback_path.is_some() { ", stored secret in app data fallback instead" } else { "" });
            push_str(&mut m, ": ");
            push_str(&mut m, err.as_str());
            Err(SecretError::Access(string_of(&m)))
        },
        None => Ok(()),
    }
}

/// Where a secret is to be read from.
pub enum SecretLookup {
    /// The keychain holds it.
    Found(String),
    /// The keychain does not; the fallback file at this path is to be read.
    ReadFallback(String),
    /// Neither holds it.
    Missing,
}

/// Where a secret is to be read from, given what the keychain gave (a secret, or nothing
/// where it holds none or could not be used): a non-blank keychain secret; else the
/// fallback file when there is a data directory; else nothing.
pub fn profile_secret_lookup(app_data_dir: Option<&str>, profile_id: &str, keychain: Option<String>) -> (r: SecretLookup)
    ensures
        match keychain {
            Some(k) if !is_blank(k@) => r matches SecretLookup::Found(s) && s@ == k@,
            _ => match app_data_dir {
                Some(d) => r matches SecretLookup::ReadFallback(p) && fallback_at(p@, d@, profile_id@),
                None => r is Missing,
            },
        },
{
    match keychain {
        Some(secret) => {
            if !crate::text::is_blank_str(secret.as_str()) {
                return SecretLookup::Found(secret);
            }
        },
        None => {},
    }
    match app_data_dir {
        Some(d) => SecretLookup::ReadFallback(fallback_secret_path(d, profile_id)),
        None => SecretLookup::Missing,
    }
}

/// `get_profile_secret`, its keychain part: the keychain's secret for the profile (service
/// `adbchelper`, account `connection-profile:{profile_id}`), as `profile_secret_lookup`
/// decides; what the keychain holds is its own answer.
pub fn get_profile_secret(app_data_dir: Option<&str>, profile_id: &str) -> (r: SecretLookup)
    ensures
        match r {
            SecretLookup::Found(s) => !is_blank(s@),
            SecretLookup::ReadFallback(p) => app_data_dir matches Some(d) && fallback_at(p@, d@, profile_id@),
            SecretLookup::Missing => app_data_dir is None,
        },
{
    let keychain = match entry_for_profile(profile_id) {
        Ok(entry) => match keyring_get_password(&entry) {
            Ok(secret) => Some(secret),
            Err(_) => None,
        },
        Err(_) => None,
    };
    profile_secret_lookup(app_data_dir, profile_id, keychain)
}

/// `read_fallback_secret` given what reading the file gave: its text unless blank.
pub fn fallback_secret(contents: Result<String, String>) -> (r: Result<String, SecretError>)
    ensures
        match contents {
            Err(e) => r matches Err(SecretError::Io(m)) && m@ == e@,
            Ok(v) => if is_blank(v@) { r matches Err(SecretError::Missing) } else { r matches Ok(s) && s@ == v@ },
        },
{
    match contents {
        Err(e) => Err(SecretError::Io(e)),
        Ok(v) => if crate::text::is_blank_str(v.as_str()) { Err(SecretError::Missing) } else { Ok(v) },
    }
}

/// `has_profile_secret`: whether reading the secret succeeded.
pub fn has_profile_secret(outcome: &Result<String, SecretError>) -> (r: bool)
    ensures r == outcome is Ok,
{
    outcome.is_ok()
}

/// `delete_profile_secret`, its keychain part: the keychain entry is removed (its errors
/// are ignored); the answer is the fallback file to remove, when there is a data directory.
pub fn delete_profile_secret(app_data_dir: Option<&str>, profile_id: &str) -> (r: Option<String>)
    ensures
        (r is Some) == (app_data_dir is Some),
        r matches Some(p) ==> fallback_at(p@, app_data_dir->Some_0@, profile_id@),
{
    match entry_for_profile(profile_id) {
        Ok(entry) => {
            let _ = keyring_delete_credential(&entry);
        },
        Err(_) => {},
    }
    match app_data_dir {
        Some(d) => Some(fallback_secret_path(d, profile_id)),
        None => None,
    }
}

} // verus!

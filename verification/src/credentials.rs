//! Credentials for the remote service: kept in memory once known, and otherwise
//! taken from the environment or from the user's credentials file.

use crate::error::{json_error_text, GaggleError};
use crate::json::{json_document, member_text, parse, text_member};
use crate::text::opt_text;
use vstd::prelude::*;
use vstd::string::StringExecFns;

verus! {

/// A user name and the key that goes with it.
#[derive(Debug, Clone, PartialEq, Eq)]
pub struct KaggleCredentials {
    /// The name of the user.
    pub username: String,
    /// The key of the user for the remote service.
    pub key: String,
}

/// The credentials that are known, if any.
pub struct CredentialStore {
    current: Option<KaggleCredentials>,
}

/// What was found of the user's credentials file.
#[derive(Debug, Clone, PartialEq, Eq)]
pub enum CredentialsFile {
    /// The user has no home directory to look in.
    NoHome,
    /// There is no such file.
    Missing,
    /// The file is there but its permissions could not be looked at, for the reason
    /// given.
    NoMetadata(String),
    /// The file is there but could not be read, for the reason given.
    Unreadable(String),
    /// The file holds no JSON, for the reason given.
    Invalid(String),
    /// The file holds JSON, with these texts under `username` and `key`.
    Parsed { username: Option<String>, key: Option<String> },
}

/// The pair of texts that credentials hold.
pub open spec fn pair_of(c: KaggleCredentials) -> (Seq<char>, Seq<char>) {
    (c.username@, c.key@)
}

impl CredentialStore {
    /// The user name and key that are known, if any.
    pub closed spec fn known(self) -> Option<(Seq<char>, Seq<char>)> {
        match self.current {
            Some(c) => Some(pair_of(c)),
            None => None,
        }
    }

    /// A store in which nothing is known.
    pub fn new() -> (r: CredentialStore)
        ensures
            r.known() is None,
    {
        CredentialStore { current: None }
    }

    /// The credentials that are known, if any.
    pub fn get(&self) -> (r: Option<KaggleCredentials>)
        ensures
            match r {
                Some(c) => self.known() == Some(pair_of(c)),
                None => self.known() is None,
            },
    {
        match &self.current {
            Some(c) => Some(KaggleCredentials { username: c.username.clone(), key: c.key.clone() }),
            None => None,
        }
    }
}

/// Makes `username` and `key` the credentials that are known, in place of any that
/// were known before. Empty texts are taken as they are.
pub fn set_credentials(store: &mut CredentialStore, username: &str, key: &str) -> (r: Result<
    (),
    GaggleError,
>)
    ensures
        r is Ok,
        final(store).known() == Some((username@, key@)),
{
    store.current = Some(
        KaggleCredentials { username: String::from_str(username), key: String::from_str(key) },
    );
    Ok(())
}

/// What is known without a look at the credentials file: the credentials in the
/// store, or else those of the environment where it names both a user and a key.
pub open spec fn known_or_env(
    known: Option<(Seq<char>, Seq<char>)>,
    env_username: Option<String>,
    env_key: Option<String>,
) -> Option<(Seq<char>, Seq<char>)> {
    match known {
        Some(pair) => Some(pair),
        None => match (env_username, env_key) {
            (Some(u), Some(k)) => Some((u@, k@)),
            _ => None,
        },
    }
}

/// The credentials in the store, or else those of the environment, which are then
/// kept in the store. `None` where neither has them: the credentials file is next.
pub fn lookup_credentials(
    store: &mut CredentialStore,
    env_username: Option<String>,
    env_key: Option<String>,
) -> (r: Option<KaggleCredentials>)
    ensures
        match known_or_env(old(store).known(), env_username, env_key) {
            Some(pair) => r matches Some(c) && pair_of(c) == pair && final(store).known() == Some(
                pair,
            ),
            None => r is None && final(store).known() is None,
        },
{
    match store.get() {
        Some(c) => Some(c),
        None => match (env_username, env_key) {
            (Some(username), Some(key)) => {
                let kept = KaggleCredentials { username: username.clone(), key: key.clone() };
                store.current = Some(kept);
                Some(KaggleCredentials { username, key })
            },
            _ => None,
        },
    }
}

/// The detail of the error for a credentials file that does not give credentials.
pub open spec fn file_fault_detail(file: CredentialsFile) -> Seq<char> {
    match file {
        CredentialsFile::NoHome => "Cannot find home directory"@,
        CredentialsFile::Missing =>
            "No Kaggle credentials found. Set KAGGLE_USERNAME and KAGGLE_KEY environment variables, create ~/.kaggle/kaggle.json, or call gaggle_set_credentials()"@,
        CredentialsFile::NoMetadata(reason) => "Cannot read kaggle.json metadata: "@ + reason@,
        CredentialsFile::Unreadable(reason) => "Cannot read kaggle.json: "@ + reason@,
        CredentialsFile::Invalid(reason) => "Invalid JSON in kaggle.json: "@ + reason@,
        CredentialsFile::Parsed { username, key } => if username is None {
            "Missing username in kaggle.json"@
        } else {
            "Missing key in kaggle.json"@
        },
    }
}

/// The credentials that a credentials file gives, if it gives any.
pub open spec fn file_pair(file: CredentialsFile) -> Option<(Seq<char>, Seq<char>)> {
    match file {
        CredentialsFile::Parsed { username: Some(u), key: Some(k) } => Some((u@, k@)),
        _ => None,
    }
}

/// The credentials of the user's credentials file, which are then kept in the store.
/// Fails where the file is missing, unreadable, no JSON, or lacks the user name or the
/// key.
pub fn credentials_from_file(store: &mut CredentialStore, file: CredentialsFile) -> (r: Result<
    KaggleCredentials,
    GaggleError,
>)
    ensures
        match file_pair(file) {
            Some(pair) => r matches Ok(c) && pair_of(c) == pair && final(store).known() == Some(
                pair,
            ),
            None => (r matches Err(GaggleError::CredentialsError(m)) && m@ == file_fault_detail(
                file,
            )) && final(store).known() == old(store).known(),
        },
{
    match file {
        CredentialsFile::NoHome => Err(
            GaggleError::CredentialsError(String::from_str("Cannot find home directory")),
        ),
        CredentialsFile::Missing => Err(
            GaggleError::CredentialsError(
                String::from_str(
                    "No Kaggle credentials found. Set KAGGLE_USERNAME and KAGGLE_KEY environment variables, create ~/.kaggle/kaggle.json, or call gaggle_set_credentials()",
                ),
            ),
        ),
        CredentialsFile::NoMetadata(reason) => Err(
            GaggleError::CredentialsError(
                String::from_str("Cannot read kaggle.json metadata: ").concat(reason.as_str()),
            ),
        ),
        CredentialsFile::Unreadable(reason) => Err(
            GaggleError::CredentialsError(
                String::from_str("Cannot read kaggle.json: ").concat(reason.as_str()),
            ),
        ),
        CredentialsFile::Invalid(reason) => Err(
            GaggleError::CredentialsError(
                String::from_str("Invalid JSON in kaggle.json: ").concat(reason.as_str()),
            ),
        ),
        CredentialsFile::Parsed { username, key } => match username {
            None => Err(
                GaggleError::CredentialsError(String::from_str("Missing username in kaggle.json")),
            ),
            Some(username) => match key {
                None => Err(
                    GaggleError::CredentialsError(String::from_str("Missing key in kaggle.json")),
                ),
                Some(key) => {
                    let kept = KaggleCredentials { username: username.clone(), key: key.clone() };
                    store.current = Some(kept);
                    Ok(KaggleCredentials { username, key })
                },
            },
        },
    }
}


/// What the content of the user's credentials file holds: the texts that
/// `serde_json` finds under `username` and `key` where the content is JSON, and the
/// reason otherwise.
pub fn read_credentials_file(content: &str) -> (r: CredentialsFile)
    ensures
        match json_document(content@) {
            Some(document) => r matches CredentialsFile::Parsed { username, key } && opt_text(
                username,
            ) == text_member(document, "username"@) && opt_text(key) == text_member(
                document,
                "key"@,
            ),
            None => r is Invalid,
        },
{
    match parse(content) {
        Ok(document) => CredentialsFile::Parsed {
            username: member_text(&document, "username"),
            key: member_text(&document, "key"),
        },
        Err(e) => CredentialsFile::Invalid(json_error_text(&e)),
    }
}

} // verus!

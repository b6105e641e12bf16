use gaggle::credentials::{
    credentials_from_file, lookup_credentials, read_credentials_file, set_credentials,
    CredentialStore, CredentialsFile, KaggleCredentials,
};
use gaggle::error::GaggleError;

#[test]
fn kaggle_test_kaggle_credentials_struct() {
    let creds = KaggleCredentials {
        username: "testuser".to_string(),
        key: "testkey".to_string(),
    };
    assert_eq!(creds.username, "testuser");
    assert_eq!(creds.key, "testkey");
}

#[test]
fn credentials_test_kaggle_credentials_struct() {
    let creds = KaggleCredentials {
        username: "testuser".to_string(),
        key: "testkey".to_string(),
    };
    assert_eq!(creds.username, "testuser");
    assert_eq!(creds.key, "testkey");
}

#[test]
fn kaggle_test_set_credentials() {
    let mut store = CredentialStore::new();
    let result = set_credentials(&mut store, "testuser", "testkey");
    assert!(result.is_ok());
}

#[test]
fn credentials_test_set_credentials() {
    let mut store = CredentialStore::new();
    let result = set_credentials(&mut store, "user", "key");
    assert!(result.is_ok());

    let creds = store.get();
    assert!(creds.is_some());
    let c = creds.as_ref().unwrap();
    assert_eq!(c.username, "user");
    assert_eq!(c.key, "key");
}

#[test]
fn test_set_credentials_empty_username() {
    let mut store = CredentialStore::new();
    let result = set_credentials(&mut store, "", "testkey");
    assert!(result.is_ok());
    assert_eq!(store.get().unwrap().username, "");
}

#[test]
fn test_set_credentials_empty_key() {
    let mut store = CredentialStore::new();
    let result = set_credentials(&mut store, "testuser", "");
    assert!(result.is_ok());
    assert_eq!(store.get().unwrap().key, "");
}

#[test]
fn test_set_credentials_overwrite() {
    let mut store = CredentialStore::new();
    let _ = set_credentials(&mut store, "user1", "key1");
    let _ = set_credentials(&mut store, "user2", "key2");
    assert!(set_credentials(&mut store, "user2", "key2").is_ok());
    assert_eq!(store.get().unwrap().username, "user2");
    assert_eq!(store.get().unwrap().key, "key2");
}

#[test]
fn test_set_credentials_with_special_chars() {
    let mut store = CredentialStore::new();
    let result = set_credentials(&mut store, "user@domain.com", "key!@#$%^");
    assert!(result.is_ok());
}

#[test]
fn test_set_credentials_very_long() {
    let mut store = CredentialStore::new();
    let long_username = "a".repeat(1000);
    let long_key = "b".repeat(1000);
    let result = set_credentials(&mut store, &long_username, &long_key);
    assert!(result.is_ok());
}

#[test]
fn test_set_credentials_unicode() {
    let mut store = CredentialStore::new();
    let result = set_credentials(&mut store, "用户名", "密钥");
    assert!(result.is_ok());
    assert_eq!(store.get().unwrap().username, "用户名");
}

#[test]
fn kaggle_test_credentials_clone() {
    let creds = KaggleCredentials {
        username: "user".to_string(),
        key: "key".to_string(),
    };
    let cloned = creds.clone();
    assert_eq!(creds.username, cloned.username);
    assert_eq!(creds.key, cloned.key);
}

#[test]
fn credentials_test_credentials_clone() {
    let creds1 = KaggleCredentials {
        username: "user".to_string(),
        key: "key".to_string(),
    };
    let creds2 = creds1.clone();
    assert_eq!(creds1.username, creds2.username);
    assert_eq!(creds1.key, creds2.key);
}

#[test]
fn test_kaggle_credentials_debug() {
    let creds = KaggleCredentials {
        username: "user".to_string(),
        key: "key".to_string(),
    };
    let debug_str = format!("{:?}", creds);
    assert!(debug_str.contains("KaggleCredentials"));
}

#[test]
fn test_credentials_debug() {
    let creds = KaggleCredentials {
        username: "user".to_string(),
        key: "key".to_string(),
    };
    let debug_str = format!("{:?}", creds);
    assert!(debug_str.contains("KaggleCredentials"));
}

#[test]
fn test_get_credentials_after_set() {
    let mut store = CredentialStore::new();
    set_credentials(&mut store, "test_user", "test_key").unwrap();
    let result = lookup_credentials(
        &mut store,
        Some("env_user".to_string()),
        Some("env_key".to_string()),
    );
    assert!(result.is_some());
    let creds = result.unwrap();
    assert_eq!(creds.username, "test_user");
    assert_eq!(creds.key, "test_key");
}

#[test]
fn credentials_come_from_the_environment() {
    let mut store = CredentialStore::new();
    let creds = lookup_credentials(
        &mut store,
        Some("env_user".to_string()),
        Some("env_key".to_string()),
    )
    .unwrap();
    assert_eq!(creds.username, "env_user");
    assert_eq!(creds.key, "env_key");
    // what the environment gave is kept
    let again = lookup_credentials(&mut store, None, None).unwrap();
    assert_eq!(again.username, "env_user");
    assert_eq!(again.key, "env_key");
}

#[test]
fn half_an_environment_gives_nothing() {
    let mut store = CredentialStore::new();
    assert!(lookup_credentials(&mut store, Some("u".to_string()), None).is_none());
    assert!(lookup_credentials(&mut store, None, Some("k".to_string())).is_none());
    assert!(store.get().is_none());
}

#[test]
fn no_credentials_anywhere() {
    let mut store = CredentialStore::new();
    assert!(lookup_credentials(&mut store, None, None).is_none());
    match credentials_from_file(&mut store, CredentialsFile::Missing) {
        Err(GaggleError::CredentialsError(msg)) => {
            assert!(msg.contains("No Kaggle credentials found"));
        }
        _ => panic!("Expected CredentialsError"),
    }
}

#[test]
fn the_credentials_file_gives_credentials_or_says_why_not() {
    let detail = |file: CredentialsFile| {
        let mut store = CredentialStore::new();
        match credentials_from_file(&mut store, file) {
            Err(GaggleError::CredentialsError(m)) => {
                assert!(store.get().is_none());
                m
            }
            other => panic!("expected a credentials error, got {:?}", other),
        }
    };
    assert_eq!(detail(CredentialsFile::NoHome), "Cannot find home directory");
    assert_eq!(
        detail(CredentialsFile::Unreadable("denied".into())),
        "Cannot read kaggle.json: denied"
    );
    assert_eq!(
        detail(CredentialsFile::NoMetadata("denied".into())),
        "Cannot read kaggle.json metadata: denied"
    );
    assert_eq!(
        detail(CredentialsFile::Invalid("eof".into())),
        "Invalid JSON in kaggle.json: eof"
    );
    assert_eq!(
        detail(CredentialsFile::Parsed { username: None, key: Some("k".into()) }),
        "Missing username in kaggle.json"
    );
    assert_eq!(
        detail(CredentialsFile::Parsed { username: None, key: None }),
        "Missing username in kaggle.json"
    );
    assert_eq!(
        detail(CredentialsFile::Parsed { username: Some("u".into()), key: None }),
        "Missing key in kaggle.json"
    );

    let mut store = CredentialStore::new();
    let creds = credentials_from_file(
        &mut store,
        CredentialsFile::Parsed { username: Some("u".into()), key: Some("k".into()) },
    )
    .unwrap();
    assert_eq!((creds.username.as_str(), creds.key.as_str()), ("u", "k"));
    assert_eq!(store.get().unwrap(), creds);
}

#[test]
fn the_credentials_file_is_json_with_two_texts() {
    assert_eq!(
        read_credentials_file(r#"{"username": "u", "key": "k", "more": 1}"#),
        CredentialsFile::Parsed { username: Some("u".into()), key: Some("k".into()) }
    );
    assert_eq!(
        read_credentials_file(r#"{"username": 5}"#),
        CredentialsFile::Parsed { username: None, key: None }
    );
    assert_eq!(
        read_credentials_file(r#"["u", "k"]"#),
        CredentialsFile::Parsed { username: None, key: None }
    );
    let expected = serde_json::from_str::<serde_json::Value>("{oops").unwrap_err().to_string();
    assert_eq!(read_credentials_file("{oops"), CredentialsFile::Invalid(expected));
    let mut store = CredentialStore::new();
    match credentials_from_file(&mut store, read_credentials_file("")) {
        Err(GaggleError::CredentialsError(m)) => {
            assert!(m.starts_with("Invalid JSON in kaggle.json: "))
        }
        other => panic!("unexpected {:?}", other),
    }
}

#[test]
fn test_set_empty_credentials() {
    let mut store = CredentialStore::new();
    let result = set_credentials(&mut store, "", "");
    assert!(result.is_ok());

    let creds = lookup_credentials(&mut store, None, None).unwrap();
    assert_eq!(creds.username, "");
    assert_eq!(creds.key, "");
}

use gaggle::error::GaggleError;
use gaggle::reference::{parse_dataset_path, parse_dataset_path_with_version};

#[test]
fn mod_test_parse_dataset_path_valid() {
    let result = parse_dataset_path("owner/dataset-name");
    assert!(result.is_ok());
    let (owner, dataset) = result.unwrap();
    assert_eq!(owner, "owner");
    assert_eq!(dataset, "dataset-name");
}

#[test]
fn mod_test_parse_dataset_path_with_numbers() {
    let result = parse_dataset_path("user123/dataset456");
    assert!(result.is_ok());
    let (owner, dataset) = result.unwrap();
    assert_eq!(owner, "user123");
    assert_eq!(dataset, "dataset456");
}

#[test]
fn mod_test_parse_dataset_path_with_hyphens() {
    let result = parse_dataset_path("my-owner/my-dataset");
    assert!(result.is_ok());
    let (owner, dataset) = result.unwrap();
    assert_eq!(owner, "my-owner");
    assert_eq!(dataset, "my-dataset");
}

#[test]
fn mod_test_parse_dataset_path_with_underscores() {
    let result = parse_dataset_path("user_name/data_set");
    assert!(result.is_ok());
    let (owner, dataset) = result.unwrap();
    assert_eq!(owner, "user_name");
    assert_eq!(dataset, "data_set");
}

#[test]
fn mod_test_parse_dataset_path_no_slash() {
    let result = parse_dataset_path("ownerdataset");
    assert!(result.is_err());
    match result {
        Err(GaggleError::InvalidDatasetPath(msg)) => {
            assert!(msg.contains("must be in format"));
        }
        _ => panic!("Expected InvalidDatasetPath error"),
    }
}

#[test]
fn mod_test_parse_dataset_path_too_many_slashes() {
    let result = parse_dataset_path("owner/dataset/extra");
    assert!(result.is_err());
}

#[test]
fn mod_test_parse_dataset_path_empty_owner() {
    let result = parse_dataset_path("/dataset");
    assert!(result.is_err());
}

#[test]
fn mod_test_parse_dataset_path_empty_dataset() {
    let result = parse_dataset_path("owner/");
    assert!(result.is_err());
}

#[test]
fn test_parse_dataset_path_traversal_owner() {
    let result = parse_dataset_path("../dataset");
    assert!(result.is_err());
}

#[test]
fn test_parse_dataset_path_traversal_dataset() {
    let result = parse_dataset_path("owner/..");
    assert!(result.is_err());
}

#[test]
fn test_parse_dataset_path_special_chars() {
    let result = parse_dataset_path("user@domain.com/dataset-v1.0");
    assert!(result.is_ok());
    let (owner, dataset) = result.unwrap();
    assert_eq!(owner, "user@domain.com");
    assert_eq!(dataset, "dataset-v1.0");
}

#[test]
fn test_parse_dataset_path_trims_whitespace() {
    let result = parse_dataset_path("  owner / dataset  ");
    assert!(result.is_ok());
    let (owner, dataset) = result.unwrap();
    assert_eq!(owner, "owner");
    assert_eq!(dataset, "dataset");
}

#[test]
fn test_parse_dataset_path_rejects_dot_segments() {
    assert!(parse_dataset_path("./owner").is_err());
    assert!(parse_dataset_path("owner/.").is_err());
    assert!(parse_dataset_path("./owner/. ").is_err());
}

#[test]
fn test_parse_dataset_path_max_length() {
    let long_path = format!("{}/{}", "a".repeat(2500), "b".repeat(2500));
    assert!(long_path.len() > 4096);
    let result = parse_dataset_path(&long_path);
    assert!(result.is_err());
    match result {
        Err(GaggleError::InvalidDatasetPath(msg)) => {
            assert!(msg.contains("maximum length"));
        }
        _ => panic!("Expected InvalidDatasetPath error for oversized path"),
    }
}

#[test]
fn test_parse_with_version_v_prefix() {
    let (owner, dataset, version) = parse_dataset_path_with_version("owner/dataset@v2").unwrap();
    assert_eq!(owner, "owner");
    assert_eq!(dataset, "dataset");
    assert_eq!(version, Some("2".to_string()));
}

#[test]
fn test_parse_with_version_no_v_prefix() {
    let (owner, dataset, version) = parse_dataset_path_with_version("owner/dataset@5").unwrap();
    assert_eq!(owner, "owner");
    assert_eq!(dataset, "dataset");
    assert_eq!(version, Some("5".to_string()));
}

#[test]
fn test_parse_with_version_latest() {
    let (owner, dataset, version) =
        parse_dataset_path_with_version("owner/dataset@latest").unwrap();
    assert_eq!(owner, "owner");
    assert_eq!(dataset, "dataset");
    assert_eq!(version, None);
}

#[test]
fn test_parse_no_version() {
    let (owner, dataset, version) = parse_dataset_path_with_version("owner/dataset").unwrap();
    assert_eq!(owner, "owner");
    assert_eq!(dataset, "dataset");
    assert_eq!(version, None);
}

#[test]
fn test_parse_version_invalid_not_number() {
    let result = parse_dataset_path_with_version("owner/dataset@abc");
    assert!(result.is_err());
    if let Err(GaggleError::InvalidDatasetPath(msg)) = result {
        assert!(msg.contains("Invalid version number"));
    }
}

#[test]
fn test_parse_version_multiple_at_signs() {
    let result = parse_dataset_path_with_version("owner/dataset@v2@v3");
    assert!(result.is_err());
    if let Err(GaggleError::InvalidDatasetPath(msg)) = result {
        assert!(msg.contains("one @"));
    }
}

#[test]
fn test_parse_version_with_hyphenated_name() {
    let (owner, dataset, version) =
        parse_dataset_path_with_version("my-owner/my-dataset@v10").unwrap();
    assert_eq!(owner, "my-owner");
    assert_eq!(dataset, "my-dataset");
    assert_eq!(version, Some("10".to_string()));
}

#[test]
fn test_parse_version_zero_rejected() {
    let result = parse_dataset_path_with_version("owner/dataset@0");
    assert!(result.is_err());
    if let Err(GaggleError::InvalidDatasetPath(msg)) = result {
        assert!(msg.contains("> 0"));
    }
}

#[test]
fn test_parse_version_large_number() {
    let (_owner, _dataset, version) =
        parse_dataset_path_with_version("owner/dataset@v999").unwrap();
    assert_eq!(version, Some("999".to_string()));
}

#[test]
fn test_parse_version_empty_after_at() {
    let (_owner, _dataset, version) = parse_dataset_path_with_version("owner/dataset@").unwrap();
    assert_eq!(version, None);
}

#[test]
fn test_parse_version_with_whitespace() {
    let (_owner, _dataset, version) =
        parse_dataset_path_with_version("owner/dataset@v2 ").unwrap();
    assert_eq!(version, Some("2".to_string()));
}

#[test]
fn test_parse_dataset_path_exactly_max_length() {
    let owner = "a".repeat(2047);
    let dataset = "b".repeat(2048);
    let path = format!("{}/{}", owner, dataset);
    let result = parse_dataset_path(&path);
    assert!(result.is_ok());
}

#[test]
fn kaggle_test_parse_dataset_path_valid() {
    let result = parse_dataset_path("owner/dataset-name");
    assert!(result.is_ok());
    let (owner, dataset) = result.unwrap();
    assert_eq!(owner, "owner");
    assert_eq!(dataset, "dataset-name");
}

#[test]
fn kaggle_test_parse_dataset_path_with_numbers() {
    let result = parse_dataset_path("user123/dataset456");
    assert!(result.is_ok());
    let (owner, dataset) = result.unwrap();
    assert_eq!(owner, "user123");
    assert_eq!(dataset, "dataset456");
}

#[test]
fn kaggle_test_parse_dataset_path_with_hyphens() {
    let result = parse_dataset_path("my-owner/my-dataset");
    assert!(result.is_ok());
    let (owner, dataset) = result.unwrap();
    assert_eq!(owner, "my-owner");
    assert_eq!(dataset, "my-dataset");
}

#[test]
fn kaggle_test_parse_dataset_path_with_underscores() {
    let result = parse_dataset_path("user_name/data_set");
    assert!(result.is_ok());
    let (owner, dataset) = result.unwrap();
    assert_eq!(owner, "user_name");
    assert_eq!(dataset, "data_set");
}

#[test]
fn kaggle_test_parse_dataset_path_no_slash() {
    let result = parse_dataset_path("ownerdataset");
    assert!(result.is_err());
    match result {
        Err(GaggleError::InvalidDatasetPath(msg)) => {
            assert!(msg.contains("must be in format"));
        }
        _ => panic!("Expected InvalidDatasetPath error"),
    }
}

#[test]
fn kaggle_test_parse_dataset_path_too_many_slashes() {
    let result = parse_dataset_path("owner/dataset/extra");
    assert!(result.is_err());
}

#[test]
fn test_parse_dataset_path_trailing_slash() {
    let result = parse_dataset_path("owner/dataset/");
    assert!(result.is_err());
}

#[test]
fn test_parse_dataset_path_leading_slash() {
    let result = parse_dataset_path("/owner/dataset");
    assert!(result.is_err());
}

#[test]
fn kaggle_test_parse_dataset_path_empty_owner() {
    let result = parse_dataset_path("/dataset");
    assert!(result.is_err());
}

#[test]
fn kaggle_test_parse_dataset_path_empty_dataset() {
    let result = parse_dataset_path("owner/");
    assert!(result.is_err());
}

#[test]
fn test_parse_dataset_path_empty_string() {
    let result = parse_dataset_path("");
    assert!(result.is_err());
}

#[test]
fn test_parse_dataset_path_result_strings() {
    let result = parse_dataset_path("owner/dataset");
    assert!(result.is_ok());
    let (owner, dataset) = result.unwrap();
    assert_eq!(owner.len(), 5);
    assert_eq!(dataset.len(), 7);
}

#[test]
fn test_parse_dataset_path_with_dots() {
    let result = parse_dataset_path("owner.name/dataset.name");
    assert!(result.is_ok());
    let (owner, dataset) = result.unwrap();
    assert_eq!(owner, "owner.name");
    assert_eq!(dataset, "dataset.name");
}

#[test]
fn test_parse_dataset_path_case_preservation() {
    let result = parse_dataset_path("OwNeR/DaTaSeT");
    assert!(result.is_ok());
    let (owner, dataset) = result.unwrap();
    assert_eq!(owner, "OwNeR");
    assert_eq!(dataset, "DaTaSeT");
}

#[test]
fn test_credentials_multiple_slashes_in_dataset() {
    let result = parse_dataset_path("owner/dataset/withslash");
    assert!(result.is_err());
}

#[test]
fn test_parse_dataset_path_empty_owner_rejected() {
    let result = parse_dataset_path("/dataset");
    assert!(result.is_err());
    match result {
        Err(GaggleError::InvalidDatasetPath(msg)) => {
            assert!(msg.contains("empty"));
        }
        _ => panic!("Expected InvalidDatasetPath error for empty owner"),
    }
}

#[test]
fn test_parse_dataset_path_empty_dataset_rejected() {
    let result = parse_dataset_path("owner/");
    assert!(result.is_err());
    match result {
        Err(GaggleError::InvalidDatasetPath(msg)) => {
            assert!(msg.contains("empty"));
        }
        _ => panic!("Expected InvalidDatasetPath error for empty dataset"),
    }
}

#[test]
fn test_parse_dataset_path_double_empty_rejected() {
    let result = parse_dataset_path("/");
    assert!(result.is_err());
}

#[test]
fn test_parse_dataset_path_only_slashes() {
    let result = parse_dataset_path("//");
    assert!(result.is_err());
}

#[test]
fn test_path_traversal_attempts_rejected() {
    let attacks = vec![
        "../../../etc/passwd",
        "owner/../dataset",
        "owner/../../etc",
        "./owner/dataset",
        "owner/./dataset",
        "owner/..",
        "../owner/dataset",
    ];

    for attack in attacks {
        let result = parse_dataset_path(attack);
        if let Ok((owner, dataset)) = result {
            assert!(!owner.contains(".."));
            assert!(!dataset.contains(".."));
        }
    }
}

#[test]
fn test_special_characters_in_dataset_path() {
    let paths = vec![
        ("owner-name", "dataset-name"),
        ("owner_name", "dataset_name"),
        ("owner.name", "dataset.name"),
        ("owner123", "dataset456"),
    ];

    for (expected_owner, expected_dataset) in paths {
        let path = format!("{}/{}", expected_owner, expected_dataset);
        let result = parse_dataset_path(&path);
        assert!(result.is_ok(), "Failed to parse valid path: {}", path);
        let (owner, dataset) = result.unwrap();
        assert_eq!(owner, expected_owner);
        assert_eq!(dataset, expected_dataset);
    }
}

#[test]
fn test_overly_long_dataset_paths() {
    let long_owner = "a".repeat(1000);
    let long_dataset = "b".repeat(1000);
    let path = format!("{}/{}", long_owner, long_dataset);

    let result = parse_dataset_path(&path);
    assert!(result.is_ok());
    let (owner, dataset) = result.unwrap();
    assert_eq!(owner.len(), 1000);
    assert_eq!(dataset.len(), 1000);
}

#[test]
fn test_unicode_dataset_paths() {
    let paths = vec![
        ("用户", "数据集"),
        ("użytkownik", "zbiór"),
        ("utilisateur", "données"),
        ("пользователь", "данные"),
    ];

    for (owner, dataset) in paths {
        let path = format!("{}/{}", owner, dataset);
        let result = parse_dataset_path(&path);
        assert!(result.is_ok(), "Failed to parse Unicode path: {}", path);
        let (parsed_owner, parsed_dataset) = result.unwrap();
        assert_eq!(parsed_owner, owner);
        assert_eq!(parsed_dataset, dataset);
    }
}

#[test]
fn test_dataset_path_with_control_characters() {
    let paths_with_control = vec![
        "owner/dataset\n",
        "owner/dataset\r",
        "owner/dataset\t",
        "owner\n/dataset",
    ];

    for path in paths_with_control {
        let result = parse_dataset_path(path);
        if let Ok((owner, dataset)) = result {
            assert!(!owner.is_empty() || !dataset.is_empty());
        }
    }
}

#[test]
fn every_fault_has_its_message() {
    let detail = |path: &str| match parse_dataset_path(path) {
        Err(GaggleError::InvalidDatasetPath(m)) => m,
        other => panic!("expected a rejection, got {:?}", other),
    };
    assert_eq!(
        detail(&"a".repeat(5000)),
        "Dataset path exceeds maximum length of 4096 characters"
    );
    assert_eq!(
        detail("a/b/c"),
        "Dataset path must be in format 'owner/dataset-name', got: a/b/c"
    );
    assert_eq!(
        detail(" /b"),
        "Dataset path cannot have empty owner or dataset name, got:  /b"
    );
    assert_eq!(
        detail("a/.."),
        "Dataset path contains invalid traversal segments: a/.."
    );
    assert_eq!(
        detail("a\u{1}b/c"),
        "Dataset path contains control characters: a\u{1}b/c"
    );
}

#[test]
fn surrounding_white_space_is_dropped_and_inner_kept() {
    assert_eq!(
        parse_dataset_path("\t my owner /\u{a0}data set\n").unwrap(),
        ("my owner".to_string(), "data set".to_string())
    );
    assert!(parse_dataset_path(" / ").is_err());
    assert!(parse_dataset_path("\u{2003}/\u{2003}").is_err());
}

#[test]
fn length_is_counted_in_bytes() {
    // 2048 two-byte characters and one separator: 4097 bytes, 2049 characters
    let path = format!("{}/{}", "é".repeat(1024), "é".repeat(1024));
    assert_eq!(path.len(), 4097);
    assert!(parse_dataset_path(&path).is_err());
    let path = format!("{}/{}a", "é".repeat(1023), "é".repeat(1023));
    assert_eq!(path.len(), 4094);
    assert!(parse_dataset_path(&path).is_ok());
}

#[test]
fn version_numbers_follow_the_rules_of_unsigned_numerals() {
    let version = |path: &str| parse_dataset_path_with_version(path).map(|p| p.2);
    assert_eq!(version("o/d@007").unwrap(), Some("007".to_string()));
    assert_eq!(version("o/d@+5").unwrap(), Some("+5".to_string()));
    assert_eq!(version("o/d@v4294967295").unwrap(), Some("4294967295".to_string()));
    assert!(version("o/d@v4294967296").is_err());
    assert!(version("o/d@v").is_err());
    assert!(version("o/d@-1").is_err());
    assert!(version("o/d@vv2").is_err());
    assert!(version("o/d@2.0").is_err());
    assert!(version("o/d@000").is_err());
    assert_eq!(version("o/d@  latest ").unwrap(), None);
    assert!(version("o/d@Latest").is_err());
    match parse_dataset_path_with_version("o/d@ v0 ") {
        Err(GaggleError::InvalidDatasetPath(m)) => assert_eq!(
            m,
            "Invalid version number 'v0'. Version must be a positive integer > 0."
        ),
        other => panic!("expected a rejection, got {:?}", other),
    }
    // the version is judged before the reference
    match parse_dataset_path_with_version("bad@abc") {
        Err(GaggleError::InvalidDatasetPath(m)) => assert!(m.contains("Invalid version number")),
        other => panic!("expected a rejection, got {:?}", other),
    }
    match parse_dataset_path_with_version("bad@v2") {
        Err(GaggleError::InvalidDatasetPath(m)) => assert_eq!(
            m,
            "Dataset path must be in format 'owner/dataset-name', got: bad"
        ),
        other => panic!("expected a rejection, got {:?}", other),
    }
}

#[test]
fn plain_segments_round_trip() {
    for (owner, name) in [("a", "b"), ("Zoë", "données-2024"), ("o.w", "..."), ("x y", "@v2")] {
        let joined = format!("{}/{}", owner, name);
        assert_eq!(
            parse_dataset_path(&joined).unwrap(),
            (owner.to_string(), name.to_string())
        );
    }
}

#[test]
fn test_parse_dataset_path_whitespace() {
    // white space around a segment is dropped, so nothing is left of either segment
    let result = parse_dataset_path(" / ");
    match result {
        Err(GaggleError::InvalidDatasetPath(msg)) => {
            assert_eq!(
                msg,
                "Dataset path cannot have empty owner or dataset name, got:  / "
            );
        }
        _ => panic!("Expected the empty-segment error for a path of spaces"),
    }
}

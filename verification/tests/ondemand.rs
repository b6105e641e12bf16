use gaggle::error::GaggleError;
use gaggle::ondemand::{
    get_dataset_file_path, single_file_url, validate_filename, FileAction, FileEvent,
    FileFailure, FilePhase, FileSession, FileSettings,
};

const BASE: &str = "https://www.kaggle.com/api/v1";

#[test]
fn test_get_dataset_file_path_absolute_rejected() {
    let result = get_dataset_file_path("owner/dataset", "/etc/passwd", BASE);
    assert!(result.is_err());
    if let Err(GaggleError::InvalidDatasetPath(msg)) = result {
        assert!(msg.contains("Absolute"));
    }
}

#[test]
fn test_get_dataset_file_path_parent_component_rejected() {
    let result = get_dataset_file_path("owner/dataset", "../secrets.csv", BASE);
    assert!(result.is_err());
    if let Err(GaggleError::InvalidDatasetPath(msg)) = result {
        assert!(msg.contains("parent") || msg.contains("root"));
    }
}

#[test]
fn test_get_dataset_file_path_root_component_rejected() {
    let result = get_dataset_file_path("owner/dataset", "/root/file.csv", BASE);
    assert!(result.is_err());
}

#[test]
fn file_names_that_leave_the_entry_are_rejected() {
    let absolute = Err(GaggleError::InvalidDatasetPath("Absolute filenames are not allowed".into()));
    let parent = Err(GaggleError::InvalidDatasetPath(
        "Filename must not contain parent or root components".into(),
    ));
    for name in ["/", "/a", "//a", "/..", "/a/../b"] {
        assert_eq!(validate_filename(name), absolute, "{:?}", name);
    }
    for name in ["..", "../a", "a/..", "a/../b", "a/b/../../c", "./..", "a//..", "../.."] {
        assert_eq!(validate_filename(name), parent, "{:?}", name);
    }
    for name in [
        "", "a", "a.csv", "a/b.csv", "./a", "a/./b", "...", "..a", "a..", "a/..b/c", "a/b../c",
        ".../x", "a/ ../b", "..\\a", "sub dir/ü.csv", "a//b",
    ] {
        assert_eq!(validate_filename(name), Ok(()), "{:?}", name);
    }
}

#[test]
fn the_file_name_is_judged_before_the_reference() {
    match get_dataset_file_path("not a reference", "../x", BASE) {
        Err(GaggleError::InvalidDatasetPath(m)) => {
            assert_eq!(m, "Filename must not contain parent or root components")
        }
        other => panic!("unexpected {:?}", other),
    }
    match get_dataset_file_path("not a reference", "x", BASE) {
        Err(GaggleError::InvalidDatasetPath(m)) => assert_eq!(
            m,
            "Dataset path must be in format 'owner/dataset-name', got: not a reference"
        ),
        other => panic!("unexpected {:?}", other),
    }
    // a version is no part of the reference of a file
    assert!(get_dataset_file_path("o/d@v2", "x", BASE).is_ok());
    assert_eq!(get_dataset_file_path("o/d@v2", "x", BASE).unwrap().dataset, "d@v2");
}

#[test]
fn a_file_plan_names_the_file_and_its_address() {
    let plan = get_dataset_file_path(" owner / data ", "sub dir/my file+1.csv", BASE).unwrap();
    assert_eq!(plan.owner, "owner");
    assert_eq!(plan.dataset, "data");
    assert_eq!(plan.filename, "sub dir/my file+1.csv");
    assert_eq!(
        plan.url,
        "https://www.kaggle.com/api/v1/datasets/download/owner/data?fileName=sub%20dir%2Fmy%20file%2B1.csv"
    );
}

#[test]
fn file_names_are_percent_encoded_byte_by_byte() {
    let encoded = |name: &str| {
        single_file_url("", "o", "d", name)
            .strip_prefix("/datasets/download/o/d?fileName=")
            .unwrap()
            .to_string()
    };
    assert_eq!(encoded("AZaz09-._~"), "AZaz09-._~");
    assert_eq!(encoded(""), "");
    assert_eq!(encoded(" "), "%20");
    assert_eq!(encoded("a/b"), "a%2Fb");
    assert_eq!(encoded("%"), "%25");
    assert_eq!(encoded("é"), "%C3%A9");
    assert_eq!(encoded("数"), "%E6%95%B0");
    assert_eq!(encoded("\u{1F600}"), "%F0%9F%98%80");
    assert_eq!(encoded("\u{0}\u{7f}"), "%00%7F");
    assert_eq!(encoded("@[`{"), "%40%5B%60%7B");
    assert_eq!(encoded("/:^|"), "%2F%3A%5E%7C");
}

fn online() -> FileSettings {
    FileSettings { offline: false, strict: false, refetch: false }
}

/// A fetch that has just asked for the file, with the entry as it was before.
fn at_fetch_with(settings: FileSettings, entry_was_empty: bool) -> FileSession {
    let mut s = FileSession::new(settings);
    assert_eq!(s.step(FileEvent::Started), FileAction::CheckFile);
    if settings.strict {
        assert_eq!(s.step(FileEvent::FileChecked(false)), FileAction::Fetch);
    } else {
        // the entry is looked at before anything is requested or created
        assert_eq!(s.step(FileEvent::FileChecked(false)), FileAction::CheckDirectory);
        assert_eq!(s.step(FileEvent::DirectoryChecked(entry_was_empty)), FileAction::Fetch);
    }
    s
}

fn at_fetch(settings: FileSettings) -> FileSession {
    at_fetch_with(settings, true)
}

#[test]
fn a_cached_file_needs_no_network() {
    for settings in [
        online(),
        FileSettings { offline: true, strict: false, refetch: false },
        FileSettings { offline: true, strict: true, refetch: false },
    ] {
        let mut s = FileSession::new(settings);
        assert_eq!(s.step(FileEvent::Started), FileAction::CheckFile);
        assert_eq!(s.step(FileEvent::FileChecked(true)), FileAction::Finish);
        assert_eq!(s.phase, FilePhase::Finished);
    }
}

#[test]
fn a_fetched_file_is_stored_and_handed_out() {
    let mut s = at_fetch(online());
    assert_eq!(
        s.step(FileEvent::Responded { success: true, status: "200 OK".into() }),
        FileAction::Store
    );
    assert_eq!(s.step(FileEvent::Stored), FileAction::Finish);
}

#[test]
fn strict_mode_does_not_fall_back() {
    let strict = FileSettings { offline: false, strict: true, refetch: false };
    let mut s = at_fetch(strict);
    assert_eq!(
        s.step(FileEvent::Responded { success: false, status: "500 Internal Server Error".into() }),
        FileAction::Fail(FileFailure::Status("500 Internal Server Error".into()))
    );
    assert_eq!(s.phase, FilePhase::Finished);

    let mut s = at_fetch(strict);
    let e = GaggleError::HttpRequestError("connection refused".into());
    assert_eq!(
        s.step(FileEvent::Failed(e.clone())),
        FileAction::Fail(FileFailure::Reported(e))
    );

    let mut s = at_fetch(strict);
    s.step(FileEvent::Responded { success: true, status: "200 OK".into() });
    let e = GaggleError::IoError("disk full".into());
    assert_eq!(
        s.step(FileEvent::Failed(e.clone())),
        FileAction::Fail(FileFailure::Reported(e))
    );

    // offline and strict: the file is missing and that is that
    let mut s = FileSession::new(FileSettings { offline: true, strict: true, refetch: false });
    s.step(FileEvent::Started);
    assert_eq!(
        s.step(FileEvent::FileChecked(false)),
        FileAction::Fail(FileFailure::Offline)
    );
}

#[test]
fn without_strict_mode_an_empty_entry_leads_to_the_whole_dataset() {
    let failure = FileFailure::Status("404 Not Found".into());
    let not_found = || FileEvent::Responded { success: false, status: "404 Not Found".into() };

    let mut s = at_fetch_with(online(), true);
    assert_eq!(s.step(not_found()), FileAction::DownloadAll);
    assert_eq!(s.pending, Some(failure.clone()));
    assert_eq!(s.step(FileEvent::Downloaded), FileAction::CheckFile);
    assert_eq!(s.step(FileEvent::FileChecked(true)), FileAction::Finish);

    // the dataset does not hold the file either: the first failure is the result
    let mut s = at_fetch_with(online(), true);
    s.step(not_found());
    s.step(FileEvent::Downloaded);
    assert_eq!(s.step(FileEvent::FileChecked(false)), FileAction::Fail(failure.clone()));

    // the entry held something before the fetch: no download
    let mut s = at_fetch_with(online(), false);
    assert_eq!(s.step(not_found()), FileAction::Fail(failure.clone()));

    // the download fails: its error is the result
    let mut s = at_fetch_with(online(), true);
    s.step(not_found());
    let e = GaggleError::ZipError("ZIP contained no files".into());
    assert_eq!(
        s.step(FileEvent::Failed(e.clone())),
        FileAction::Fail(FileFailure::Reported(e))
    );

    // a request or a write that cannot be made counts like a refusal
    for stored in [false, true] {
        let mut s = at_fetch_with(online(), true);
        if stored {
            s.step(FileEvent::Responded { success: true, status: "200 OK".into() });
        }
        assert_eq!(
            s.step(FileEvent::Failed(GaggleError::IoError("no".into()))),
            FileAction::DownloadAll
        );
    }
}

#[test]
fn a_file_in_a_subdirectory_falls_back_like_any_other() {
    // the dataset is not in the cache at all; the file is `sub/a.csv`. The request
    // creates `sub` before it fails, but what counts is the entry as it was before:
    // the whole dataset is downloaded and the file taken from it.
    let mut s = FileSession::new(online());
    assert_eq!(s.step(FileEvent::Started), FileAction::CheckFile);
    assert_eq!(s.step(FileEvent::FileChecked(false)), FileAction::CheckDirectory);
    assert_eq!(s.step(FileEvent::DirectoryChecked(true)), FileAction::Fetch);
    assert_eq!(
        s.step(FileEvent::Responded { success: false, status: "404 Not Found".into() }),
        FileAction::DownloadAll
    );
    assert_eq!(s.step(FileEvent::Downloaded), FileAction::CheckFile);
    assert_eq!(s.step(FileEvent::FileChecked(true)), FileAction::Finish);
    assert_eq!(s.phase, FilePhase::Finished);
}

#[test]
fn offline_the_file_is_never_requested() {
    // offline a file that is not in the cache fails the fetch, strict or not, and
    // nothing is asked of the network or of the entry
    for strict in [false, true] {
        let mut s = FileSession::new(FileSettings { offline: true, strict, refetch: false });
        s.step(FileEvent::Started);
        assert_eq!(s.step(FileEvent::FileChecked(false)), FileAction::Fail(FileFailure::Offline));
        assert_eq!(s.phase, FilePhase::Finished);
    }
}

#[test]
fn file_failures_have_their_errors() {
    assert_eq!(
        FileFailure::Offline.into_error("a.csv", "o/d"),
        GaggleError::HttpRequestError(
            "Offline mode enabled; cannot download 'a.csv' from 'o/d'.".into()
        )
    );
    assert_eq!(
        FileFailure::Status("403 Forbidden".into()).into_error("a.csv", "o/d"),
        GaggleError::HttpRequestError("Failed to download file 'a.csv': HTTP 403 Forbidden".into())
    );
    let e = GaggleError::IoError("x".into());
    assert_eq!(FileFailure::Reported(e.clone()).into_error("a.csv", "o/d"), e);
    assert_eq!(
        FileFailure::OutOfOrder.into_error("a.csv", "o/d"),
        GaggleError::IoError("Fetch steps were reported out of order".into())
    );
    let mut s = FileSession::new(online());
    assert_eq!(s.step(FileEvent::Stored), FileAction::Fail(FileFailure::OutOfOrder));
}

#[test]
fn a_file_can_be_requested_anew() {
    let mut s = FileSession::new(FileSettings { offline: false, strict: true, refetch: true });
    s.step(FileEvent::Started);
    assert_eq!(s.step(FileEvent::FileChecked(true)), FileAction::Fetch);
    // but not offline: there the cached file is all there is
    let mut s = FileSession::new(FileSettings { offline: true, strict: true, refetch: true });
    s.step(FileEvent::Started);
    assert_eq!(s.step(FileEvent::FileChecked(true)), FileAction::Finish);
    let mut s = FileSession::new(FileSettings { offline: true, strict: true, refetch: true });
    s.step(FileEvent::Started);
    assert_eq!(s.step(FileEvent::FileChecked(false)), FileAction::Fail(FileFailure::Offline));
}

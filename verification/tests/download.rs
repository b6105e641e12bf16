use gaggle::cache::CacheMetadata;
use gaggle::download::{
    archive_path, cache_subdir, download_dataset, download_url, entry_dir, finalize_metadata,
    lock_key, marker_path, DatasetFile, LockTable,
};
use gaggle::error::GaggleError;
use gaggle::session::{
    attempt_lock, DownloadAction, DownloadEvent, DownloadFailure,
    DownloadPhase, DownloadSession, DownloadSettings, LockAttempt,
};

const BASE: &str = "https://www.kaggle.com/api/v1";

#[test]
fn kaggle_test_dataset_file_struct() {
    let file = DatasetFile {
        name: "data.csv".to_string(),
        size: 1024,
    };
    assert_eq!(file.name, "data.csv");
    assert_eq!(file.size, 1024);
}

#[test]
fn download_test_dataset_file_struct() {
    let file = DatasetFile {
        name: "test.csv".to_string(),
        size: 1024,
    };
    assert_eq!(file.name, "test.csv");
    assert_eq!(file.size, 1024);
}

#[test]
fn test_dataset_file_different_sizes() {
    let files = vec![
        DatasetFile {
            name: "small.txt".to_string(),
            size: 100,
        },
        DatasetFile {
            name: "large.csv".to_string(),
            size: 1_000_000_000,
        },
        DatasetFile {
            name: "empty.json".to_string(),
            size: 0,
        },
    ];

    for file in files {
        assert!(!file.name.is_empty());
    }
}

#[test]
fn test_list_dataset_files_skips_marker() {
    let files = [
        DatasetFile {
            name: "data.csv".to_string(),
            size: 1000,
        },
        DatasetFile {
            name: "info.json".to_string(),
            size: 500,
        },
    ];

    assert_eq!(files.len(), 2);
    assert_eq!(files[0].name, "data.csv");
    assert_eq!(files[1].size, 500);
}

#[test]
fn test_lock_guard_cleanup() {
    let lock_key = "test/dataset".to_string();
    let mut locks = LockTable::new();

    // Insert into locks
    assert!(locks.try_acquire(&lock_key));
    assert!(locks.contains(&lock_key));

    // While the download is under way the lock is still present
    assert!(locks.contains(&lock_key));

    // After the release the lock is removed
    locks.release(&lock_key);
    assert!(!locks.contains(&lock_key));
}

#[test]
fn a_held_key_is_granted_to_nobody_else() {
    let mut locks = LockTable::new();
    assert!(locks.try_acquire("o/d"));
    assert!(!locks.try_acquire("o/d"));
    assert!(locks.try_acquire("o/d-v2"));
    assert!(locks.try_acquire("o/e"));
    locks.release("o/d");
    assert!(!locks.contains("o/d"));
    assert!(locks.contains("o/d-v2"));
    assert!(locks.contains("o/e"));
    assert!(locks.try_acquire("o/d"));
    // releasing what is not held changes nothing
    locks.release("x/y");
    assert!(locks.contains("o/d") && locks.contains("o/d-v2") && locks.contains("o/e"));
}

#[test]
fn two_callers_one_download() {
    let mut locks = LockTable::new();
    // both callers miss the marker; the first to try gets the lock
    assert_eq!(attempt_lock(&mut locks, "o/d", false), LockAttempt::Acquired);
    assert_eq!(attempt_lock(&mut locks, "o/d", false), LockAttempt::Busy);
    assert_eq!(attempt_lock(&mut locks, "o/d", false), LockAttempt::Busy);
    // the first finishes: marker written, lock released
    locks.release("o/d");
    assert_eq!(attempt_lock(&mut locks, "o/d", true), LockAttempt::AlreadyDone);
    assert!(!locks.contains("o/d"));
}

#[test]
fn a_version_is_part_of_the_plan() {
    let plan = download_dataset("owner/dataset@v2", BASE).unwrap();
    assert_eq!(plan.version, Some("2".to_string()));
}

#[test]
fn each_version_has_its_own_directory() {
    let latest = download_dataset("owner/dataset", BASE).unwrap();
    let v2 = download_dataset("owner/dataset@v2", BASE).unwrap();
    let v3 = download_dataset("owner/dataset@3", BASE).unwrap();
    assert_eq!(latest.cache_subdir, "dataset");
    assert_eq!(v2.cache_subdir, "dataset-v2");
    assert_eq!(v3.cache_subdir, "dataset-v3");
    let root = "/tmp/cache";
    assert_eq!(entry_dir(root, &latest), "/tmp/cache/datasets/owner/dataset");
    assert_eq!(entry_dir(root, &v2), "/tmp/cache/datasets/owner/dataset-v2");
    assert_ne!(entry_dir(root, &v2), entry_dir(root, &v3));
    assert_eq!(
        marker_path(&entry_dir(root, &v2)),
        "/tmp/cache/datasets/owner/dataset-v2/.downloaded"
    );
    assert_eq!(
        archive_path(&entry_dir(root, &v2)),
        "/tmp/cache/datasets/owner/dataset-v2/dataset.zip"
    );
}

#[test]
fn a_plan_names_everything() {
    let plan = download_dataset(" my-owner / my-data @ v10 ", BASE).unwrap();
    assert_eq!(plan.owner, "my-owner");
    assert_eq!(plan.dataset, "my-data");
    assert_eq!(plan.version.as_deref(), Some("10"));
    assert_eq!(plan.base_path, "my-owner/my-data");
    assert_eq!(plan.cache_subdir, "my-data-v10");
    assert_eq!(plan.lock_key, "my-owner/my-data-v10");
    assert_eq!(
        plan.url,
        "https://www.kaggle.com/api/v1/datasets/download/my-owner/my-data/versions/10"
    );

    let plan = download_dataset("o/d@latest", "http://localhost:1/api").unwrap();
    assert_eq!(plan.version, None);
    assert_eq!(plan.lock_key, "o/d");
    assert_eq!(plan.url, "http://localhost:1/api/datasets/download/o/d");

    assert_eq!(cache_subdir("d", &None), "d");
    assert_eq!(cache_subdir("d", &Some("7".to_string())), "d-v7");
    assert_eq!(lock_key("o", "d", &Some("7".to_string())), "o/d-v7");
    assert_eq!(download_url("b", "o", "d", &None), "b/datasets/download/o/d");
}

#[test]
fn a_malformed_reference_is_rejected_before_anything_is_planned() {
    for bad in ["", "nodash", "a/b/c", "../x", "o/d@v0", "o/d@1@2", "o/ "] {
        match download_dataset(bad, BASE) {
            Err(GaggleError::InvalidDatasetPath(_)) => {}
            other => panic!("expected a rejection of {:?}, got {:?}", bad, other),
        }
    }
}

fn settings() -> DownloadSettings {
    DownloadSettings { offline: false, poll_ms: 100, timeout_ms: 300, soft_limit: true, pinned: false }
}

#[test]
fn a_cached_dataset_needs_neither_lock_nor_network() {
    for offline in [false, true] {
        let mut s = DownloadSession::new(DownloadSettings { offline, ..settings() });
        assert_eq!(s.step(DownloadEvent::Started), DownloadAction::CheckMarker);
        assert_eq!(
            s.step(DownloadEvent::MarkerChecked(true)),
            DownloadAction::Finish { release: false }
        );
        assert_eq!(s.phase, DownloadPhase::Finished);
    }
}

#[test]
fn offline_and_not_cached_fails_without_network() {
    let mut s = DownloadSession::new(DownloadSettings { offline: true, ..settings() });
    assert_eq!(s.step(DownloadEvent::Started), DownloadAction::CheckMarker);
    let action = s.step(DownloadEvent::MarkerChecked(false));
    assert_eq!(
        action,
        DownloadAction::Fail { failure: DownloadFailure::Offline, cleanup: false, release: false }
    );
    match DownloadFailure::Offline.into_error("owner/dataset") {
        GaggleError::HttpRequestError(m) => assert_eq!(
            m,
            "Offline mode enabled; cannot download 'owner/dataset'. Unset GAGGLE_OFFLINE to enable network."
        ),
        other => panic!("unexpected {:?}", other),
    }
}

#[test]
fn a_full_download_walks_through_every_step() {
    let mut s = DownloadSession::new(settings());
    assert_eq!(s.step(DownloadEvent::Started), DownloadAction::CheckMarker);
    assert_eq!(s.step(DownloadEvent::MarkerChecked(false)), DownloadAction::TryLock);
    assert!(!s.holds_lock());
    assert_eq!(
        s.step(DownloadEvent::LockTried(LockAttempt::Acquired)),
        DownloadAction::CheckMarker
    );
    assert!(s.holds_lock());
    assert_eq!(s.step(DownloadEvent::MarkerChecked(false)), DownloadAction::Fetch);
    assert_eq!(
        s.step(DownloadEvent::Responded { success: true, status: "200 OK".into() }),
        DownloadAction::Extract
    );
    assert_eq!(s.step(DownloadEvent::Extracted(3)), DownloadAction::Measure);
    assert_eq!(s.step(DownloadEvent::Measured), DownloadAction::ResolveVersion);
    assert_eq!(s.step(DownloadEvent::VersionResolved), DownloadAction::WriteMarker);
    assert_eq!(s.step(DownloadEvent::MarkerWritten), DownloadAction::Evict);
    assert!(s.holds_lock());
    assert_eq!(s.step(DownloadEvent::Evicted), DownloadAction::Finish { release: true });
    assert!(!s.holds_lock());
}

#[test]
fn a_pinned_download_does_not_ask_for_the_version() {
    let mut s = DownloadSession::new(DownloadSettings { pinned: true, ..settings() });
    s.step(DownloadEvent::Started);
    s.step(DownloadEvent::MarkerChecked(false));
    s.step(DownloadEvent::LockTried(LockAttempt::Acquired));
    s.step(DownloadEvent::MarkerChecked(false));
    s.step(DownloadEvent::Responded { success: true, status: "200 OK".into() });
    s.step(DownloadEvent::Extracted(1));
    assert_eq!(s.step(DownloadEvent::Measured), DownloadAction::WriteMarker);
    assert_eq!(s.step(DownloadEvent::MarkerWritten), DownloadAction::Evict);
}

fn at_eviction(soft_limit: bool) -> DownloadSession {
    let mut s = DownloadSession::new(DownloadSettings { soft_limit, ..settings() });
    s.step(DownloadEvent::Started);
    s.step(DownloadEvent::MarkerChecked(false));
    s.step(DownloadEvent::LockTried(LockAttempt::Acquired));
    s.step(DownloadEvent::MarkerChecked(false));
    s.step(DownloadEvent::Responded { success: true, status: "200 OK".into() });
    s.step(DownloadEvent::Extracted(1));
    s.step(DownloadEvent::Measured);
    s.step(DownloadEvent::VersionResolved);
    assert_eq!(s.step(DownloadEvent::MarkerWritten), DownloadAction::Evict);
    s
}

// The budget is enforced after every download. "Soft" and "hard" differ in what a
// failure to enforce it means: a soft budget passes it over, a hard budget fails the
// download. Neither stands in the way of the download itself.
#[test]
fn a_soft_budget_passes_over_a_failed_eviction() {
    let mut s = at_eviction(true);
    assert_eq!(s.step(DownloadEvent::Evicted), DownloadAction::Finish { release: true });
    let mut s = at_eviction(true);
    assert_eq!(
        s.step(DownloadEvent::Failed(GaggleError::IoError("busy".into()))),
        DownloadAction::Finish { release: true }
    );
}

#[test]
fn a_hard_budget_does_not_let_eviction_be_skipped() {
    let mut s = at_eviction(false);
    assert_eq!(s.step(DownloadEvent::Evicted), DownloadAction::Finish { release: true });
    let mut s = at_eviction(false);
    let e = GaggleError::IoError("busy".into());
    assert_eq!(
        s.step(DownloadEvent::Failed(e.clone())),
        DownloadAction::Fail {
            failure: DownloadFailure::Reported(e),
            cleanup: false,
            release: true
        }
    );
}

#[test]
fn the_marker_is_looked_for_again_under_the_lock() {
    let mut s = DownloadSession::new(settings());
    s.step(DownloadEvent::Started);
    s.step(DownloadEvent::MarkerChecked(false));
    s.step(DownloadEvent::LockTried(LockAttempt::Acquired));
    assert_eq!(
        s.step(DownloadEvent::MarkerChecked(true)),
        DownloadAction::Finish { release: true }
    );

    let mut s = DownloadSession::new(settings());
    s.step(DownloadEvent::Started);
    s.step(DownloadEvent::MarkerChecked(false));
    assert_eq!(
        s.step(DownloadEvent::LockTried(LockAttempt::AlreadyDone)),
        DownloadAction::Finish { release: false }
    );
}

/// Lets a caller find the lock busy until the wait is over, and gives the sleeps.
fn wait_for_the_lock(poll_ms: u64, timeout_ms: u64) -> Vec<u64> {
    let mut s = DownloadSession::new(DownloadSettings { poll_ms, timeout_ms, ..settings() });
    s.step(DownloadEvent::Started);
    s.step(DownloadEvent::MarkerChecked(false));
    let mut sleeps = Vec::new();
    loop {
        match s.step(DownloadEvent::LockTried(LockAttempt::Busy)) {
            DownloadAction::Sleep(ms) => {
                sleeps.push(ms);
                assert_eq!(s.step(DownloadEvent::Slept), DownloadAction::TryLock);
            }
            end => {
                assert_eq!(
                    end,
                    DownloadAction::Fail {
                        failure: DownloadFailure::LockTimeout,
                        cleanup: false,
                        release: false
                    }
                );
                assert_eq!(s.waited_ms, timeout_ms);
                return sleeps;
            }
        }
    }
}

#[test]
fn a_busy_lock_is_waited_for_and_then_given_up() {
    // timeout 300 ms at 100 ms a poll: three sleeps, then the wait is over
    assert_eq!(wait_for_the_lock(100, 300), vec![100, 100, 100]);
    match DownloadFailure::LockTimeout.into_error("o/d") {
        GaggleError::HttpRequestError(m) => assert_eq!(
            m,
            "Timeout waiting for download of o/d. Another thread may have stalled."
        ),
        other => panic!("unexpected {:?}", other),
    }
}

#[test]
fn the_wait_is_over_after_the_timeout_whatever_the_settings() {
    // the last sleep is cut short
    assert_eq!(wait_for_the_lock(100, 250), vec![100, 100, 50]);
    assert_eq!(wait_for_the_lock(7, 20), vec![7, 7, 6]);
    // a timeout shorter than the poll interval: one short sleep
    assert_eq!(wait_for_the_lock(100, 50), vec![50]);
    assert_eq!(wait_for_the_lock(500, 1), vec![1]);
    // no poll interval: a millisecond at a time
    assert_eq!(wait_for_the_lock(0, 3), vec![1, 1, 1]);
    // no timeout: no wait at all
    assert_eq!(wait_for_the_lock(100, 0), Vec::<u64>::new());
    assert_eq!(wait_for_the_lock(0, 0), Vec::<u64>::new());
    // the sleeps add up to the timeout
    assert_eq!(wait_for_the_lock(u64::MAX, u64::MAX), vec![u64::MAX]);
    assert_eq!(wait_for_the_lock(31, 1000).iter().sum::<u64>(), 1000);
    assert_eq!(wait_for_the_lock(31, 1000).len(), 33);
}

#[test]
fn a_lock_that_comes_free_in_time_is_taken() {
    let mut s = DownloadSession::new(DownloadSettings { poll_ms: 100, timeout_ms: 250, ..settings() });
    s.step(DownloadEvent::Started);
    s.step(DownloadEvent::MarkerChecked(false));
    assert_eq!(s.step(DownloadEvent::LockTried(LockAttempt::Busy)), DownloadAction::Sleep(100));
    s.step(DownloadEvent::Slept);
    assert_eq!(s.step(DownloadEvent::LockTried(LockAttempt::Busy)), DownloadAction::Sleep(100));
    s.step(DownloadEvent::Slept);
    assert_eq!(
        s.step(DownloadEvent::LockTried(LockAttempt::Acquired)),
        DownloadAction::CheckMarker
    );
    assert!(s.holds_lock());
}

fn at_extraction() -> DownloadSession {
    let mut s = DownloadSession::new(settings());
    s.step(DownloadEvent::Started);
    s.step(DownloadEvent::MarkerChecked(false));
    s.step(DownloadEvent::LockTried(LockAttempt::Acquired));
    s.step(DownloadEvent::MarkerChecked(false));
    s.step(DownloadEvent::Responded { success: true, status: "200 OK".into() });
    s
}

#[test]
fn a_failed_extraction_is_cleaned_up() {
    let mut s = at_extraction();
    assert_eq!(
        s.step(DownloadEvent::Extracted(0)),
        DownloadAction::Fail {
            failure: DownloadFailure::EmptyArchive,
            cleanup: true,
            release: true
        }
    );
    assert_eq!(
        DownloadFailure::EmptyArchive.into_error("o/d"),
        GaggleError::ZipError("ZIP contained no files".into())
    );

    let mut s = at_extraction();
    let e = GaggleError::ZipError("bad".into());
    assert_eq!(
        s.step(DownloadEvent::ExtractionFailed(e.clone())),
        DownloadAction::Fail {
            failure: DownloadFailure::Reported(e.clone()),
            cleanup: true,
            release: true
        }
    );
    assert_eq!(DownloadFailure::Reported(e.clone()).into_error("o/d"), e);
}

fn at_fetch() -> DownloadSession {
    let mut s = DownloadSession::new(settings());
    s.step(DownloadEvent::Started);
    s.step(DownloadEvent::MarkerChecked(false));
    s.step(DownloadEvent::LockTried(LockAttempt::Acquired));
    assert_eq!(s.step(DownloadEvent::MarkerChecked(false)), DownloadAction::Fetch);
    s
}

#[test]
fn no_directory_is_left_without_its_marker() {
    // the request creates the directory; whatever fails from then on, until the
    // marker is written, the directory goes again
    let e = GaggleError::IoError("disk full".into());
    let failed = |s: &mut DownloadSession| s.step(DownloadEvent::Failed(e.clone()));
    let cleaned = DownloadAction::Fail {
        failure: DownloadFailure::Reported(e.clone()),
        cleanup: true,
        release: true,
    };

    let mut s = at_fetch();
    assert_eq!(failed(&mut s), cleaned);
    let mut s = at_extraction();
    assert_eq!(failed(&mut s), cleaned);
    let mut s = at_extraction();
    assert_eq!(s.step(DownloadEvent::Extracted(1)), DownloadAction::Measure);
    assert_eq!(failed(&mut s), cleaned);
    let mut s = at_extraction();
    s.step(DownloadEvent::Extracted(1));
    s.step(DownloadEvent::Measured);
    assert_eq!(s.step(DownloadEvent::VersionResolved), DownloadAction::WriteMarker);
    assert_eq!(failed(&mut s), cleaned);

    // with the marker written the entry is complete and stays
    let mut s = at_eviction(false);
    assert_eq!(
        failed(&mut s),
        DownloadAction::Fail {
            failure: DownloadFailure::Reported(e.clone()),
            cleanup: false,
            release: true
        }
    );
    // and before the request there is nothing to remove
    let mut s = DownloadSession::new(settings());
    s.step(DownloadEvent::Started);
    s.step(DownloadEvent::MarkerChecked(false));
    s.step(DownloadEvent::LockTried(LockAttempt::Acquired));
    assert_eq!(
        failed(&mut s),
        DownloadAction::Fail {
            failure: DownloadFailure::Reported(e.clone()),
            cleanup: false,
            release: true
        }
    );
}

#[test]
fn other_failures_release_the_lock_and_remove_the_entry() {
    let mut s = at_fetch();
    assert_eq!(
        s.step(DownloadEvent::Responded { success: false, status: "404 Not Found".into() }),
        DownloadAction::Fail {
            failure: DownloadFailure::Status("404 Not Found".into()),
            cleanup: true,
            release: true
        }
    );
    assert_eq!(
        DownloadFailure::Status("404 Not Found".into()).into_error("o/d"),
        GaggleError::HttpRequestError("Failed to download dataset: HTTP 404 Not Found".into())
    );

    let mut s = at_extraction();
    s.step(DownloadEvent::Extracted(1));
    s.step(DownloadEvent::Measured);
    s.step(DownloadEvent::VersionResolved);
    let e = GaggleError::IoError("disk full".into());
    assert_eq!(
        s.step(DownloadEvent::Failed(e.clone())),
        DownloadAction::Fail {
            failure: DownloadFailure::Reported(e),
            cleanup: true,
            release: true
        }
    );

    // before the lock is held there is nothing to release
    let mut s = DownloadSession::new(settings());
    s.step(DownloadEvent::Started);
    let e = GaggleError::IoError("no".into());
    assert_eq!(
        s.step(DownloadEvent::Failed(e.clone())),
        DownloadAction::Fail {
            failure: DownloadFailure::Reported(e),
            cleanup: false,
            release: false
        }
    );
}

#[test]
fn an_event_out_of_turn_ends_the_download() {
    let mut s = DownloadSession::new(settings());
    assert_eq!(
        s.step(DownloadEvent::Slept),
        DownloadAction::Fail {
            failure: DownloadFailure::OutOfOrder,
            cleanup: false,
            release: false
        }
    );
    assert_eq!(s.phase, DownloadPhase::Finished);
    let mut s = at_extraction();
    assert_eq!(
        s.step(DownloadEvent::Evicted),
        DownloadAction::Fail {
            failure: DownloadFailure::OutOfOrder,
            cleanup: true,
            release: true
        }
    );
    assert_eq!(
        DownloadFailure::OutOfOrder.into_error("o/d"),
        GaggleError::IoError("Download steps were reported out of order".into())
    );
}

#[test]
fn the_marker_records_what_was_downloaded() {
    let pinned = download_dataset("o/d@v3", BASE).unwrap();
    let m = finalize_metadata(&pinned, Some(5 * 1024 * 1024 + 17), Some("9".into()), 1_700_000_000);
    assert_eq!(
        m,
        CacheMetadata {
            downloaded_at_secs: 1_700_000_000,
            dataset_path: "o/d".into(),
            size_mb: 5,
            version: Some("3".into())
        }
    );
    let latest = download_dataset("o/d", BASE).unwrap();
    let m = finalize_metadata(&latest, None, Some("9".into()), 5);
    assert_eq!((m.size_mb, m.version.as_deref()), (0, Some("9")));
    let m = finalize_metadata(&latest, Some(1024 * 1024 - 1), None, 5);
    assert_eq!((m.size_mb, m.version), (0, None));
}

#[test]
fn a_download_does_not_fail_for_want_of_a_version() {
    let mut s = at_extraction();
    s.step(DownloadEvent::Extracted(2));
    assert_eq!(s.step(DownloadEvent::Measured), DownloadAction::ResolveVersion);
    assert_eq!(
        s.step(DownloadEvent::Failed(GaggleError::HttpRequestError("down".into()))),
        DownloadAction::WriteMarker
    );
    assert_eq!(s.step(DownloadEvent::MarkerWritten), DownloadAction::Evict);
}

/// The world of two callers after one dataset: the lock table and the marker.
struct World {
    locks: LockTable,
    marker: bool,
    fetches: u32,
}

/// Lets `s` take steps until it needs the lock again, has finished, or, with
/// `pause_at_fetch`, is about to request the archive. Gives the last action.
fn advance(world: &mut World, s: &mut DownloadSession, mut event: DownloadEvent, pause_at_fetch: bool) -> DownloadAction {
    loop {
        let action = s.step(event);
        event = match &action {
            DownloadAction::CheckMarker => DownloadEvent::MarkerChecked(world.marker),
            DownloadAction::TryLock => {
                let attempt = attempt_lock(&mut world.locks, "o/d", world.marker);
                if attempt == LockAttempt::Busy {
                    // leave the caller asleep: the other one is due
                    assert!(matches!(
                        s.step(DownloadEvent::LockTried(attempt)),
                        DownloadAction::Sleep(_)
                    ));
                    return DownloadAction::Sleep(0);
                }
                DownloadEvent::LockTried(attempt)
            }
            DownloadAction::Fetch => {
                if pause_at_fetch {
                    return action;
                }
                world.fetches += 1;
                DownloadEvent::Responded { success: true, status: "200 OK".into() }
            }
            DownloadAction::Extract => DownloadEvent::Extracted(1),
            DownloadAction::Measure => DownloadEvent::Measured,
            DownloadAction::ResolveVersion => DownloadEvent::VersionResolved,
            DownloadAction::WriteMarker => {
                world.marker = true;
                DownloadEvent::MarkerWritten
            }
            DownloadAction::Evict => DownloadEvent::Evicted,
            DownloadAction::Finish { release } | DownloadAction::Fail { release, .. } => {
                assert_eq!(*release, world.locks.contains("o/d"));
                if *release {
                    world.locks.release("o/d");
                }
                return action;
            }
            DownloadAction::Sleep(_) => DownloadEvent::Slept,
        };
    }
}

#[test]
fn of_two_callers_one_fetches_and_both_get_the_entry() {
    let mut world = World { locks: LockTable::new(), marker: false, fetches: 0 };
    let mut first = DownloadSession::new(settings());
    let mut second = DownloadSession::new(settings());

    // both miss the marker; the first takes the lock and is about to fetch
    assert_eq!(advance(&mut world, &mut first, DownloadEvent::Started, true), DownloadAction::Fetch);
    assert!(first.holds_lock());
    // the second finds the lock busy and sleeps
    assert_eq!(
        advance(&mut world, &mut second, DownloadEvent::Started, true),
        DownloadAction::Sleep(0)
    );
    assert!(!second.holds_lock());
    // the first goes through with it
    world.fetches += 1;
    let end = advance(
        &mut world,
        &mut first,
        DownloadEvent::Responded { success: true, status: "200 OK".into() },
        false,
    );
    assert_eq!(end, DownloadAction::Finish { release: true });
    assert!(world.marker && !world.locks.contains("o/d"));
    // the second wakes up and is handed the entry
    let end = advance(&mut world, &mut second, DownloadEvent::Slept, true);
    assert_eq!(end, DownloadAction::Finish { release: false });
    assert_eq!(world.fetches, 1);
    assert!(!world.locks.contains("o/d"));
}

#[test]
fn a_failed_download_leaves_the_lock_free_for_the_next() {
    let mut world = World { locks: LockTable::new(), marker: false, fetches: 0 };
    let mut first = DownloadSession::new(settings());
    let mut second = DownloadSession::new(settings());
    assert_eq!(advance(&mut world, &mut first, DownloadEvent::Started, true), DownloadAction::Fetch);
    assert_eq!(
        advance(&mut world, &mut second, DownloadEvent::Started, true),
        DownloadAction::Sleep(0)
    );
    // the first fails
    let end = advance(
        &mut world,
        &mut first,
        DownloadEvent::Responded { success: false, status: "503".into() },
        false,
    );
    assert!(matches!(end, DownloadAction::Fail { release: true, .. }));
    assert!(!world.locks.contains("o/d") && !world.marker);
    // the second takes over and downloads
    let end = advance(&mut world, &mut second, DownloadEvent::Slept, false);
    assert_eq!(end, DownloadAction::Finish { release: true });
    assert_eq!(world.fetches, 1);
    assert!(world.marker);
}

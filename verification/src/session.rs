//! The steps of one download, as a machine that is told what happened and answers with
//! what to do next. The caller performs the actions; every decision is taken here.

use crate::download::LockTable;
use crate::error::GaggleError;
use vstd::prelude::*;
use vstd::string::StringExecFns;

verus! {

/// Where a download stands.
#[derive(Debug, Clone, Copy, PartialEq, Eq, Structural)]
pub enum DownloadPhase {
    /// Nothing has happened yet.
    Start,
    /// The marker is being looked for, without the lock.
    FastPath,
    /// The lock is being tried.
    Waiting,
    /// The lock was busy; the caller sleeps before the next try.
    Sleeping,
    /// The lock is held and the marker is being looked for once more.
    DoubleCheck,
    /// The lock is held and the archive is being requested.
    Fetching,
    /// The lock is held; the archive is streamed to disk and extracted.
    Extracting,
    /// The lock is held; the archive is removed and the entry is measured.
    Measuring,
    /// The lock is held; the current version is asked of the remote service.
    ResolvingVersion,
    /// The lock is held; the marker is being written.
    WritingMarker,
    /// The lock is held; the cache is being brought under its budget.
    Evicting,
    /// The download is over.
    Finished,
}

impl DownloadPhase {
    /// The phases in which the caller holds the lock of the download.
    pub open spec fn holds_lock(self) -> bool {
        match self {
            DownloadPhase::DoubleCheck => true,
            DownloadPhase::Fetching => true,
            DownloadPhase::Extracting => true,
            DownloadPhase::Measuring => true,
            DownloadPhase::ResolvingVersion => true,
            DownloadPhase::WritingMarker => true,
            DownloadPhase::Evicting => true,
            _ => false,
        }
    }

    /// The phases in which the entry's directory is there without its marker: from
    /// the request of the archive, which creates it, to the writing of the marker.
    pub open spec fn entry_is_partial(self) -> bool {
        match self {
            DownloadPhase::Fetching => true,
            DownloadPhase::Extracting => true,
            DownloadPhase::Measuring => true,
            DownloadPhase::ResolvingVersion => true,
            DownloadPhase::WritingMarker => true,
            _ => false,
        }
    }

    /// The phases that only a caller that may use the network can be in.
    pub open spec fn is_online(self) -> bool {
        self.holds_lock() || self == DownloadPhase::Waiting || self == DownloadPhase::Sleeping
    }
}

/// What a download is configured with.
#[derive(Debug, Clone, Copy, PartialEq, Eq, Structural)]
pub struct DownloadSettings {
    /// No network may be used.
    pub offline: bool,
    /// Milliseconds between two tries of a busy lock.
    pub poll_ms: u64,
    /// Milliseconds after which to stop waiting for a busy lock.
    pub timeout_ms: u64,
    /// The cache budget is soft: a failure to enforce it after the download is
    /// passed over. With a hard budget such a failure fails the download.
    pub soft_limit: bool,
    /// The reference pins a version, so none has to be asked for.
    pub pinned: bool,
}

/// Milliseconds of one sleep on a busy lock while time is left: the poll interval,
/// and one millisecond where the interval is 0.
pub open spec fn poll_step(poll_ms: u64) -> u64 {
    if poll_ms == 0 {
        1
    } else {
        poll_ms
    }
}

/// Milliseconds of the next sleep on a busy lock after `waited_ms` of waiting: one
/// poll step, cut short where less is left of the timeout.
pub open spec fn next_sleep(poll_ms: u64, timeout_ms: u64, waited_ms: u64) -> u64 {
    if timeout_ms - waited_ms < poll_step(poll_ms) {
        (timeout_ms - waited_ms) as u64
    } else {
        poll_step(poll_ms)
    }
}

/// How one try of the lock ended.
#[derive(Debug, Clone, Copy, PartialEq, Eq, Structural)]
pub enum LockAttempt {
    /// The marker is there: somebody finished the download, and nothing was taken.
    AlreadyDone,
    /// The key was free and is now held by the caller.
    Acquired,
    /// Somebody else holds the key.
    Busy,
}

/// The outcome of a try, as a function of what the caller found.
pub open spec fn lock_attempt_of(held: Set<Seq<char>>, key: Seq<char>, marker_exists: bool)
    -> LockAttempt {
    if marker_exists {
        LockAttempt::AlreadyDone
    } else if held.contains(key) {
        LockAttempt::Busy
    } else {
        LockAttempt::Acquired
    }
}

/// The keys that are held after a try.
pub open spec fn held_after_attempt(held: Set<Seq<char>>, key: Seq<char>, marker_exists: bool)
    -> Set<Seq<char>> {
    if lock_attempt_of(held, key, marker_exists) == LockAttempt::Acquired {
        held.insert(key)
    } else {
        held
    }
}

/// Tries to take the lock of a download. To be called with the table guarded, and with
/// `marker_exists` found out under that guard.
pub fn attempt_lock(table: &mut LockTable, key: &str, marker_exists: bool) -> (r: LockAttempt)
    ensures
        r == lock_attempt_of(old(table).held(), key@, marker_exists),
        final(table).held() == held_after_attempt(old(table).held(), key@, marker_exists),
{
    if marker_exists {
        LockAttempt::AlreadyDone
    } else if table.try_acquire(key) {
        LockAttempt::Acquired
    } else {
        assert(table.held() =~= old(table).held());
        LockAttempt::Busy
    }
}

/// While a key is held, nobody else is granted it: a second try ends `Busy`, or
/// `AlreadyDone` once the marker is there, and changes nothing.
pub proof fn lemma_held_key_is_exclusive(
    held: Set<Seq<char>>,
    key: Seq<char>,
    first_sees_marker: bool,
    second_sees_marker: bool,
)
    requires
        lock_attempt_of(held, key, first_sees_marker) == LockAttempt::Acquired,
    ensures
        lock_attempt_of(
            held_after_attempt(held, key, first_sees_marker),
            key,
            second_sees_marker,
        ) != LockAttempt::Acquired,
        held_after_attempt(
            held_after_attempt(held, key, first_sees_marker),
            key,
            second_sees_marker,
        ) == held_after_attempt(held, key, first_sees_marker),
{
}

/// What the caller reports to the machine.
#[derive(Debug, Clone, PartialEq, Eq)]
pub enum DownloadEvent {
    /// The download begins.
    Started,
    /// The marker was looked for; `true` if it is there.
    MarkerChecked(bool),
    /// The lock was tried.
    LockTried(LockAttempt),
    /// The caller slept as told.
    Slept,
    /// The remote service answered, with a success status or another, rendered in
    /// `status`.
    Responded { success: bool, status: String },
    /// The archive was extracted, with this many files written.
    Extracted(usize),
    /// The archive was rejected or could not be read.
    ExtractionFailed(GaggleError),
    /// The archive is removed and the entry measured.
    Measured,
    /// The remote service named the current version.
    VersionResolved,
    /// The marker is written.
    MarkerWritten,
    /// The cache budget was enforced.
    Evicted,
    /// The action could not be performed.
    Failed(GaggleError),
}

/// Why a download ended without an entry.
#[derive(Debug, Clone, PartialEq, Eq)]
pub enum DownloadFailure {
    /// Offline, and the dataset is not cached.
    Offline,
    /// The lock stayed busy for longer than the configured time.
    LockTimeout,
    /// The remote service answered with a status that is no success.
    Status(String),
    /// The archive held no file.
    EmptyArchive,
    /// The caller reported a failure.
    Reported(GaggleError),
    /// The caller reported something that the machine had not asked for.
    OutOfOrder,
}

/// What the caller is to do next.
#[derive(Debug, Clone, PartialEq, Eq)]
pub enum DownloadAction {
    /// Look for the marker and report `MarkerChecked`.
    CheckMarker,
    /// Guard the table, look for the marker, call `attempt_lock`, report `LockTried`.
    TryLock,
    /// Sleep for this many milliseconds and report `Slept`.
    Sleep(u64),
    /// Create the entry's directory, request the archive, report `Responded`.
    Fetch,
    /// Stream the answer to the temporary archive, extract it, report `Extracted` or
    /// `ExtractionFailed`.
    Extract,
    /// Remove the temporary archive, measure the entry, report `Measured`.
    Measure,
    /// Ask the remote service for the current version and report `VersionResolved`,
    /// or `Failed` where it gave none.
    ResolveVersion,
    /// Write the marker and report `MarkerWritten`.
    WriteMarker,
    /// Enforce the cache budget and report `Evicted`, or `Failed` where that could
    /// not be done.
    Evict,
    /// Release the lock if told so, then hand out the entry's directory.
    Finish { release: bool },
    /// Remove the temporary archive and the entry's directory if `cleanup` says so,
    /// which it does wherever the directory may be there without its marker,
    /// release the lock if told so, then fail.
    Fail { failure: DownloadFailure, cleanup: bool, release: bool },
}

impl DownloadAction {
    /// The actions that talk to the remote service.
    pub open spec fn uses_network(self) -> bool {
        self == DownloadAction::Fetch || self == DownloadAction::Extract || self
            == DownloadAction::ResolveVersion
    }

    /// The actions that end the download.
    pub open spec fn is_final(self) -> bool {
        self is Finish || self is Fail
    }

    /// Whether the action tells the caller to release the lock.
    pub open spec fn releases(self) -> bool {
        match self {
            DownloadAction::Finish { release } => release,
            DownloadAction::Fail { release, .. } => release,
            _ => false,
        }
    }
}

/// One download in progress.
#[derive(Debug, Clone, Copy, PartialEq, Eq, Structural)]
pub struct DownloadSession {
    /// Where the download stands.
    pub phase: DownloadPhase,
    /// Milliseconds that the caller has been told to sleep on a busy lock.
    pub waited_ms: u64,
    /// What the download is configured with.
    pub settings: DownloadSettings,
}

impl DownloadSession {
    /// The session after a failure, and the action that reports it. The entry's
    /// directory is removed if it is there without its marker, and the lock is
    /// released if it is held.
    pub open spec fn fail_with(self, failure: DownloadFailure) -> (
        DownloadSession,
        DownloadAction,
    ) {
        (
            DownloadSession { phase: DownloadPhase::Finished, ..self },
            DownloadAction::Fail {
                failure,
                cleanup: self.phase.entry_is_partial(),
                release: self.phase.holds_lock(),
            },
        )
    }

    /// The session in another phase, and the action that leads there.
    pub open spec fn go(self, phase: DownloadPhase, action: DownloadAction) -> (
        DownloadSession,
        DownloadAction,
    ) {
        (DownloadSession { phase, ..self }, action)
    }

    /// The session after the download is over, and the action that hands out the entry.
    pub open spec fn finish(self) -> (DownloadSession, DownloadAction) {
        (
            DownloadSession { phase: DownloadPhase::Finished, ..self },
            DownloadAction::Finish { release: self.phase.holds_lock() },
        )
    }

    /// What a busy lock leads to: the end of the wait once the caller has slept for
    /// the whole of the timeout, one more sleep otherwise.
    pub open spec fn when_busy(self) -> (DownloadSession, DownloadAction) {
        if self.waited_ms >= self.settings.timeout_ms {
            self.fail_with(DownloadFailure::LockTimeout)
        } else {
            let sleep_ms = next_sleep(
                self.settings.poll_ms,
                self.settings.timeout_ms,
                self.waited_ms,
            );
            (
                DownloadSession {
                    phase: DownloadPhase::Sleeping,
                    waited_ms: (self.waited_ms + sleep_ms) as u64,
                    ..self
                },
                DownloadAction::Sleep(sleep_ms),
            )
        }
    }

    /// The transition of the machine: the session after `event`, and what the caller is
    /// to do next.
    pub open spec fn next(self, event: DownloadEvent) -> (DownloadSession, DownloadAction) {
        match (self.phase, event) {
            (_, DownloadEvent::Failed(e)) => if self.phase == DownloadPhase::Finished {
                self.fail_with(DownloadFailure::OutOfOrder)
            } else if self.phase == DownloadPhase::Evicting && self.settings.soft_limit {
                self.finish()
            } else if self.phase == DownloadPhase::ResolvingVersion {
                self.go(DownloadPhase::WritingMarker, DownloadAction::WriteMarker)
            } else {
                self.fail_with(DownloadFailure::Reported(e))
            },
            (DownloadPhase::Start, DownloadEvent::Started) => self.go(
                DownloadPhase::FastPath,
                DownloadAction::CheckMarker,
            ),
            (DownloadPhase::FastPath, DownloadEvent::MarkerChecked(exists)) => if exists {
                self.finish()
            } else if self.settings.offline {
                self.fail_with(DownloadFailure::Offline)
            } else {
                self.go(DownloadPhase::Waiting, DownloadAction::TryLock)
            },
            (DownloadPhase::Waiting, DownloadEvent::LockTried(attempt)) => match attempt {
                LockAttempt::AlreadyDone => self.finish(),
                LockAttempt::Acquired => self.go(
                    DownloadPhase::DoubleCheck,
                    DownloadAction::CheckMarker,
                ),
                LockAttempt::Busy => self.when_busy(),
            },
            (DownloadPhase::Sleeping, DownloadEvent::Slept) => self.go(
                DownloadPhase::Waiting,
                DownloadAction::TryLock,
            ),
            (DownloadPhase::DoubleCheck, DownloadEvent::MarkerChecked(exists)) => if exists {
                self.finish()
            } else {
                self.go(DownloadPhase::Fetching, DownloadAction::Fetch)
            },
            (DownloadPhase::Fetching, DownloadEvent::Responded { success, status }) => if success {
                self.go(DownloadPhase::Extracting, DownloadAction::Extract)
            } else {
                self.fail_with(DownloadFailure::Status(status))
            },
            (DownloadPhase::Extracting, DownloadEvent::Extracted(files)) => if files == 0 {
                self.fail_with(DownloadFailure::EmptyArchive)
            } else {
                self.go(DownloadPhase::Measuring, DownloadAction::Measure)
            },
            (DownloadPhase::Extracting, DownloadEvent::ExtractionFailed(e)) => self.fail_with(
                DownloadFailure::Reported(e),
            ),
            (DownloadPhase::Measuring, DownloadEvent::Measured) => if self.settings.pinned {
                self.go(DownloadPhase::WritingMarker, DownloadAction::WriteMarker)
            } else {
                self.go(DownloadPhase::ResolvingVersion, DownloadAction::ResolveVersion)
            },
            (DownloadPhase::ResolvingVersion, DownloadEvent::VersionResolved) => self.go(
                DownloadPhase::WritingMarker,
                DownloadAction::WriteMarker,
            ),
            (DownloadPhase::WritingMarker, DownloadEvent::MarkerWritten) => self.go(
                DownloadPhase::Evicting,
                DownloadAction::Evict,
            ),
            (DownloadPhase::Evicting, DownloadEvent::Evicted) => self.finish(),
            _ => self.fail_with(DownloadFailure::OutOfOrder),
        }
    }

    /// What holds of every session that `new` and `step` produce: offline, the download
    /// never gets as far as the lock.
    pub open spec fn wf(self) -> bool {
        self.settings.offline ==> !self.phase.is_online()
    }

    /// A download that has not begun.
    pub fn new(settings: DownloadSettings) -> (r: DownloadSession)
        ensures
            r == (DownloadSession { phase: DownloadPhase::Start, waited_ms: 0, settings }),
            r.wf(),
    {
        DownloadSession { phase: DownloadPhase::Start, waited_ms: 0, settings }
    }

    /// Whether the caller holds the lock of the download.
    pub fn holds_lock(&self) -> (r: bool)
        ensures
            r == self.phase.holds_lock(),
    {
        match self.phase {
            DownloadPhase::DoubleCheck => true,
            DownloadPhase::Fetching => true,
            DownloadPhase::Extracting => true,
            DownloadPhase::Measuring => true,
            DownloadPhase::ResolvingVersion => true,
            DownloadPhase::WritingMarker => true,
            DownloadPhase::Evicting => true,
            _ => false,
        }
    }

    fn do_fail(&mut self, failure: DownloadFailure) -> (a: DownloadAction)
        ensures
            (*final(self), a) == old(self).fail_with(failure),
    {
        let release = self.holds_lock();
        let cleanup = match self.phase {
            DownloadPhase::Fetching => true,
            DownloadPhase::Extracting => true,
            DownloadPhase::Measuring => true,
            DownloadPhase::ResolvingVersion => true,
            DownloadPhase::WritingMarker => true,
            _ => false,
        };
        self.phase = DownloadPhase::Finished;
        DownloadAction::Fail { failure, cleanup, release }
    }

    fn do_finish(&mut self) -> (a: DownloadAction)
        ensures
            (*final(self), a) == old(self).finish(),
    {
        let release = self.holds_lock();
        self.phase = DownloadPhase::Finished;
        DownloadAction::Finish { release }
    }

    fn do_go(&mut self, phase: DownloadPhase, action: DownloadAction) -> (a: DownloadAction)
        ensures
            (*final(self), a) == old(self).go(phase, action),
    {
        self.phase = phase;
        action
    }

    fn do_when_busy(&mut self) -> (a: DownloadAction)
        ensures
            (*final(self), a) == old(self).when_busy(),
    {
        if self.waited_ms >= self.settings.timeout_ms {
            self.do_fail(DownloadFailure::LockTimeout)
        } else {
            let step: u64 = if self.settings.poll_ms == 0 {
                1
            } else {
                self.settings.poll_ms
            };
            let left = self.settings.timeout_ms - self.waited_ms;
            let sleep_ms: u64 = if left < step {
                left
            } else {
                step
            };
            self.waited_ms = self.waited_ms + sleep_ms;
            self.phase = DownloadPhase::Sleeping;
            DownloadAction::Sleep(sleep_ms)
        }
    }

    /// Takes in what happened and answers with what to do next.
    pub fn step(&mut self, event: DownloadEvent) -> (action: DownloadAction)
        ensures
            (*final(self), action) == old(self).next(event),
            old(self).wf() ==> final(self).wf(),
    {
        let phase = self.phase;
        match event {
            DownloadEvent::Failed(e) => {
                if phase == DownloadPhase::Finished {
                    self.do_fail(DownloadFailure::OutOfOrder)
                } else if phase == DownloadPhase::Evicting && self.settings.soft_limit {
                    self.do_finish()
                } else if phase == DownloadPhase::ResolvingVersion {
                    self.do_go(DownloadPhase::WritingMarker, DownloadAction::WriteMarker)
                } else {
                    self.do_fail(DownloadFailure::Reported(e))
                }
            },
            DownloadEvent::Started => {
                if phase == DownloadPhase::Start {
                    self.do_go(DownloadPhase::FastPath, DownloadAction::CheckMarker)
                } else {
                    self.do_fail(DownloadFailure::OutOfOrder)
                }
            },
            DownloadEvent::MarkerChecked(exists) => {
                if phase == DownloadPhase::FastPath {
                    if exists {
                        self.do_finish()
                    } else if self.settings.offline {
                        self.do_fail(DownloadFailure::Offline)
                    } else {
                        self.do_go(DownloadPhase::Waiting, DownloadAction::TryLock)
                    }
                } else if phase == DownloadPhase::DoubleCheck {
                    if exists {
                        self.do_finish()
                    } else {
                        self.do_go(DownloadPhase::Fetching, DownloadAction::Fetch)
                    }
                } else {
                    self.do_fail(DownloadFailure::OutOfOrder)
                }
            },
            DownloadEvent::LockTried(attempt) => {
                if phase == DownloadPhase::Waiting {
                    match attempt {
                        LockAttempt::AlreadyDone => self.do_finish(),
                        LockAttempt::Acquired => self.do_go(
                            DownloadPhase::DoubleCheck,
                            DownloadAction::CheckMarker,
                        ),
                        LockAttempt::Busy => self.do_when_busy(),
                    }
                } else {
                    self.do_fail(DownloadFailure::OutOfOrder)
                }
            },
            DownloadEvent::Slept => {
                if phase == DownloadPhase::Sleeping {
                    self.do_go(DownloadPhase::Waiting, DownloadAction::TryLock)
                } else {
                    self.do_fail(DownloadFailure::OutOfOrder)
                }
            },
            DownloadEvent::Responded { success, status } => {
                if phase == DownloadPhase::Fetching {
                    if success {
                        self.do_go(DownloadPhase::Extracting, DownloadAction::Extract)
                    } else {
                        self.do_fail(DownloadFailure::Status(status))
                    }
                } else {
                    self.do_fail(DownloadFailure::OutOfOrder)
                }
            },
            DownloadEvent::Extracted(files) => {
                if phase == DownloadPhase::Extracting {
                    if files == 0 {
                        self.do_fail(DownloadFailure::EmptyArchive)
                    } else {
                        self.do_go(DownloadPhase::Measuring, DownloadAction::Measure)
                    }
                } else {
                    self.do_fail(DownloadFailure::OutOfOrder)
                }
            },
            DownloadEvent::ExtractionFailed(e) => {
                if phase == DownloadPhase::Extracting {
                    self.do_fail(DownloadFailure::Reported(e))
                } else {
                    self.do_fail(DownloadFailure::OutOfOrder)
                }
            },
            DownloadEvent::Measured => {
                if phase == DownloadPhase::Measuring {
                    if self.settings.pinned {
                        self.do_go(DownloadPhase::WritingMarker, DownloadAction::WriteMarker)
                    } else {
                        self.do_go(DownloadPhase::ResolvingVersion, DownloadAction::ResolveVersion)
                    }
                } else {
                    self.do_fail(DownloadFailure::OutOfOrder)
                }
            },
            DownloadEvent::VersionResolved => {
                if phase == DownloadPhase::ResolvingVersion {
                    self.do_go(DownloadPhase::WritingMarker, DownloadAction::WriteMarker)
                } else {
                    self.do_fail(DownloadFailure::OutOfOrder)
                }
            },
            DownloadEvent::MarkerWritten => {
                if phase == DownloadPhase::WritingMarker {
                    self.do_go(DownloadPhase::Evicting, DownloadAction::Evict)
                } else {
                    self.do_fail(DownloadFailure::OutOfOrder)
                }
            },
            DownloadEvent::Evicted => {
                if phase == DownloadPhase::Evicting {
                    self.do_finish()
                } else {
                    self.do_fail(DownloadFailure::OutOfOrder)
                }
            },
        }
    }
}


impl DownloadFailure {
    /// The error that reports the failure of the download of `dataset_path`.
    pub open spec fn reported_as(self, dataset_path: Seq<char>, e: GaggleError) -> bool {
        match self {
            DownloadFailure::Offline => e matches GaggleError::HttpRequestError(m) && m@
                == "Offline mode enabled; cannot download '"@ + dataset_path
                + "'. Unset GAGGLE_OFFLINE to enable network."@,
            DownloadFailure::LockTimeout => e matches GaggleError::HttpRequestError(m) && m@
                == "Timeout waiting for download of "@ + dataset_path
                + ". Another thread may have stalled."@,
            DownloadFailure::Status(status) => e matches GaggleError::HttpRequestError(m) && m@
                == "Failed to download dataset: HTTP "@ + status@,
            DownloadFailure::EmptyArchive => e matches GaggleError::ZipError(m) && m@
                == "ZIP contained no files"@,
            DownloadFailure::Reported(inner) => e == inner,
            DownloadFailure::OutOfOrder => e matches GaggleError::IoError(m) && m@
                == "Download steps were reported out of order"@,
        }
    }

    /// Turns the failure into the error that the caller of the download gets.
    pub fn into_error(self, dataset_path: &str) -> (e: GaggleError)
        ensures
            self.reported_as(dataset_path@, e),
    {
        match self {
            DownloadFailure::Offline => GaggleError::HttpRequestError(
                String::from_str("Offline mode enabled; cannot download '").concat(
                    dataset_path,
                ).concat("'. Unset GAGGLE_OFFLINE to enable network."),
            ),
            DownloadFailure::LockTimeout => GaggleError::HttpRequestError(
                String::from_str("Timeout waiting for download of ").concat(dataset_path).concat(
                    ". Another thread may have stalled.",
                ),
            ),
            DownloadFailure::Status(status) => GaggleError::HttpRequestError(
                String::from_str("Failed to download dataset: HTTP ").concat(status.as_str()),
            ),
            DownloadFailure::EmptyArchive => GaggleError::ZipError(
                String::from_str("ZIP contained no files"),
            ),
            DownloadFailure::Reported(inner) => inner,
            DownloadFailure::OutOfOrder => GaggleError::IoError(
                String::from_str("Download steps were reported out of order"),
            ),
        }
    }
}

/// Offline, no step asks for the network or for the lock, whatever is reported.
pub proof fn lemma_offline_never_uses_network(s: DownloadSession, event: DownloadEvent)
    requires
        s.wf(),
        s.settings.offline,
    ensures
        !s.next(event).1.uses_network(),
        s.next(event).1 != DownloadAction::TryLock,
        s.next(event).0.wf(),
{
}

/// Offline and without a cached entry, a download fails at once: the marker is looked
/// for, and its absence ends the download, with nothing to clean up or release.
pub proof fn lemma_offline_uncached_fails(settings: DownloadSettings)
    requires
        settings.offline,
    ensures
        ({
            let s0 = DownloadSession { phase: DownloadPhase::Start, waited_ms: 0, settings };
            let (s1, a1) = s0.next(DownloadEvent::Started);
            let (s2, a2) = s1.next(DownloadEvent::MarkerChecked(false));
            &&& a1 == DownloadAction::CheckMarker
            &&& a2 == DownloadAction::Fail {
                failure: DownloadFailure::Offline,
                cleanup: false,
                release: false,
            }
            &&& s2.phase == DownloadPhase::Finished
        }),
{
}

/// A complete entry is handed out at once, offline or not, without lock or network.
pub proof fn lemma_cached_entry_is_served(settings: DownloadSettings)
    ensures
        ({
            let s0 = DownloadSession { phase: DownloadPhase::Start, waited_ms: 0, settings };
            let (s1, a1) = s0.next(DownloadEvent::Started);
            let (s2, a2) = s1.next(DownloadEvent::MarkerChecked(true));
            &&& a1 == DownloadAction::CheckMarker
            &&& a2 == DownloadAction::Finish { release: false }
            &&& s2.phase == DownloadPhase::Finished
        }),
{
}

/// The lock is held from the step that is told `Acquired` to the step that ends the
/// download, and that step tells the caller to release it. The network is used only
/// while the lock is held.
pub proof fn lemma_lock_discipline(s: DownloadSession, event: DownloadEvent)
    ensures
        ({
            let (t, a) = s.next(event);
            &&& a.is_final() <==> t.phase == DownloadPhase::Finished
            &&& a.is_final() ==> a.releases() == s.phase.holds_lock()
            &&& !a.is_final() ==> (t.phase.holds_lock() <==> s.phase.holds_lock() || (s.phase
                == DownloadPhase::Waiting && event == DownloadEvent::LockTried(
                LockAttempt::Acquired,
            )))
            &&& a.uses_network() ==> t.phase.holds_lock()
            &&& a == DownloadAction::Fetch ==> s.phase == DownloadPhase::DoubleCheck && event
                == DownloadEvent::MarkerChecked(false)
        }),
{
}

/// Once the marker is there, a caller that waits for the lock or has just taken it is
/// handed the entry without a request to the remote service.
pub proof fn lemma_finished_download_is_shared(s: DownloadSession)
    ensures
        s.phase == DownloadPhase::Waiting ==> s.next(
            DownloadEvent::LockTried(LockAttempt::AlreadyDone),
        ).1 == (DownloadAction::Finish { release: false }),
        s.phase == DownloadPhase::DoubleCheck ==> s.next(DownloadEvent::MarkerChecked(true)).1 == (
        DownloadAction::Finish { release: true }),
{
}

/// The session after `rounds` times finding the lock busy and sleeping.
pub open spec fn after_busy_rounds(s: DownloadSession, rounds: nat) -> DownloadSession
    decreases rounds,
{
    if rounds == 0 {
        s
    } else {
        after_busy_rounds(
            s.next(DownloadEvent::LockTried(LockAttempt::Busy)).0.next(DownloadEvent::Slept).0,
            (rounds - 1) as nat,
        )
    }
}

/// How often a caller that waits for the lock is sent to sleep before the wait is
/// over.
pub open spec fn busy_rounds_left(s: DownloadSession) -> nat
    decreases s.settings.timeout_ms - s.waited_ms,
{
    if s.waited_ms >= s.settings.timeout_ms {
        0
    } else {
        1 + busy_rounds_left(s.when_busy().0)
    }
}

/// A wait for the lock ends, whatever the settings: a caller that finds the lock busy
/// again and again is sent to sleep for no more than what is left of the timeout in
/// all, at least a millisecond each time, and fails with `LockTimeout` the next time
/// it finds the lock busy.
pub proof fn lemma_lock_wait_times_out(s: DownloadSession)
    requires
        s.phase == DownloadPhase::Waiting,
    ensures
        s.waited_ms <= s.settings.timeout_ms ==> busy_rounds_left(s) <= s.settings.timeout_ms
            - s.waited_ms && after_busy_rounds(s, busy_rounds_left(s)).waited_ms
            == s.settings.timeout_ms,
        after_busy_rounds(s, busy_rounds_left(s)).phase == DownloadPhase::Waiting,
        after_busy_rounds(s, busy_rounds_left(s)).waited_ms >= s.settings.timeout_ms,
        after_busy_rounds(s, busy_rounds_left(s)).next(
            DownloadEvent::LockTried(LockAttempt::Busy),
        ).1 == (DownloadAction::Fail {
            failure: DownloadFailure::LockTimeout,
            cleanup: false,
            release: false,
        }),
    decreases s.settings.timeout_ms - s.waited_ms,
{
    if s.waited_ms < s.settings.timeout_ms {
        let slept = s.next(DownloadEvent::LockTried(LockAttempt::Busy)).0;
        let awake = slept.next(DownloadEvent::Slept).0;
        assert(slept == s.when_busy().0);
        assert(awake.phase == DownloadPhase::Waiting);
        assert(awake.waited_ms == slept.waited_ms);
        assert(awake.settings == s.settings);
        assert(busy_rounds_left(awake) == busy_rounds_left(slept)) by {
            assert(awake.waited_ms == slept.waited_ms && awake.settings == slept.settings);
            lemma_rounds_left_by_time(awake, slept);
        }
        lemma_lock_wait_times_out(awake);
    }
}

/// How long a wait still lasts depends on the time slept and the settings alone.
pub proof fn lemma_rounds_left_by_time(a: DownloadSession, b: DownloadSession)
    requires
        a.waited_ms == b.waited_ms,
        a.settings == b.settings,
    ensures
        busy_rounds_left(a) == busy_rounds_left(b),
    decreases a.settings.timeout_ms - a.waited_ms,
{
    if a.waited_ms < a.settings.timeout_ms {
        lemma_rounds_left_by_time(a.when_busy().0, b.when_busy().0);
    }
}

/// A caller that has slept for the whole of the timeout fails the next time it finds
/// the lock busy, and a caller that has not is sent to sleep for at least a
/// millisecond and no longer than what is left.
pub proof fn lemma_busy_lock_is_waited_for_in_time(s: DownloadSession)
    requires
        s.phase == DownloadPhase::Waiting,
    ensures
        s.waited_ms >= s.settings.timeout_ms ==> s.next(
            DownloadEvent::LockTried(LockAttempt::Busy),
        ).1 == (DownloadAction::Fail {
            failure: DownloadFailure::LockTimeout,
            cleanup: false,
            release: false,
        }),
        s.waited_ms < s.settings.timeout_ms ==> {
            let (t, a) = s.next(DownloadEvent::LockTried(LockAttempt::Busy));
            &&& a matches DownloadAction::Sleep(ms)
            &&& 1 <= a->Sleep_0 <= s.settings.timeout_ms - s.waited_ms
            &&& a->Sleep_0 <= poll_step(s.settings.poll_ms)
            &&& t.waited_ms == s.waited_ms + a->Sleep_0
        },
{
}

/// The cache keeps no directory that is neither complete nor absent: a download that
/// fails after the entry's directory was created and before its marker was written
/// tells the caller to remove the directory, whatever the failure; and the entry is
/// handed out only where the marker is there.
pub proof fn lemma_no_partial_entry_is_left(s: DownloadSession, event: DownloadEvent)
    ensures
        ({
            let (t, a) = s.next(event);
            &&& a matches DownloadAction::Fail { cleanup, .. } ==> cleanup
                == s.phase.entry_is_partial()
            &&& a is Finish ==> !s.phase.entry_is_partial()
            &&& a == DownloadAction::Fetch ==> t.phase.entry_is_partial()
            &&& !a.is_final() && s.phase.entry_is_partial() ==> t.phase.entry_is_partial() || (
            s.phase == DownloadPhase::WritingMarker && event == DownloadEvent::MarkerWritten)
        }),
{
}

/// The cache budget is enforced after every download, soft or hard; only the outcome
/// of a failure differs: a soft budget lets the download succeed, a hard one fails it.
/// Either way the lock is released.
pub proof fn lemma_eviction_is_never_skipped(s: DownloadSession, e: GaggleError)
    ensures
        s.phase == DownloadPhase::WritingMarker ==> s.next(DownloadEvent::MarkerWritten).1
            == DownloadAction::Evict,
        s.phase == DownloadPhase::Evicting ==> s.next(DownloadEvent::Evicted).1 == (
        DownloadAction::Finish { release: true }),
        s.phase == DownloadPhase::Evicting && s.settings.soft_limit ==> s.next(
            DownloadEvent::Failed(e),
        ).1 == (DownloadAction::Finish { release: true }),
        s.phase == DownloadPhase::Evicting && !s.settings.soft_limit ==> s.next(
            DownloadEvent::Failed(e),
        ).1 == (DownloadAction::Fail {
            failure: DownloadFailure::Reported(e),
            cleanup: false,
            release: true,
        }),
{
}


/// A download whose archive is in place does not fail for want of a version: where
/// the remote service names none, the marker is written all the same.
pub proof fn lemma_version_is_best_effort(s: DownloadSession, e: GaggleError)
    requires
        s.phase == DownloadPhase::ResolvingVersion,
    ensures
        s.next(DownloadEvent::VersionResolved).1 == DownloadAction::WriteMarker,
        s.next(DownloadEvent::Failed(e)).1 == DownloadAction::WriteMarker,
{
}

/// Two callers after the same dataset: the state of their downloads, whether the key
/// of the dataset is held, and whether the marker of the entry is there.
pub struct Race {
    /// The download of the one caller.
    pub first: DownloadSession,
    /// The download of the other caller.
    pub second: DownloadSession,
    /// Whether the key of the dataset is held.
    pub key_held: bool,
    /// Whether the marker of the entry is there.
    pub marker_exists: bool,
}

/// Whether what a caller reports agrees with the state of the race: the marker is
/// there if it says so, and the lock was tried with the outcome that the table gives.
pub open spec fn agrees_with(race: Race, event: DownloadEvent) -> bool {
    match event {
        DownloadEvent::MarkerChecked(exists) => exists == race.marker_exists,
        DownloadEvent::LockTried(attempt) => attempt == (if race.marker_exists {
            LockAttempt::AlreadyDone
        } else if race.key_held {
            LockAttempt::Busy
        } else {
            LockAttempt::Acquired
        }),
        _ => true,
    }
}

/// What one step of a caller makes of the key and the marker: the key is held from
/// the try that takes it to the action that releases it, and the marker is there
/// once it is written.
pub open spec fn after_step(
    race: Race,
    before: DownloadSession,
    event: DownloadEvent,
) -> (bool, bool) {
    let action = before.next(event).1;
    let key_held = if before.phase == DownloadPhase::Waiting && event == DownloadEvent::LockTried(
        LockAttempt::Acquired,
    ) {
        true
    } else if action.releases() {
        false
    } else {
        race.key_held
    };
    let marker_exists = race.marker_exists || (before.phase == DownloadPhase::WritingMarker && event
        == DownloadEvent::MarkerWritten);
    (key_held, marker_exists)
}

/// The race after the first caller has taken a step.
pub open spec fn first_steps(race: Race, event: DownloadEvent) -> Race {
    Race {
        first: race.first.next(event).0,
        second: race.second,
        key_held: after_step(race, race.first, event).0,
        marker_exists: after_step(race, race.first, event).1,
    }
}

/// The race after the second caller has taken a step.
pub open spec fn second_steps(race: Race, event: DownloadEvent) -> Race {
    Race {
        first: race.first,
        second: race.second.next(event).0,
        key_held: after_step(race, race.second, event).0,
        marker_exists: after_step(race, race.second, event).1,
    }
}

/// At most one of the two callers holds the lock, and the key is held exactly while
/// one of them does.
pub open spec fn one_at_a_time(race: Race) -> bool {
    &&& !(race.first.phase.holds_lock() && race.second.phase.holds_lock())
    &&& race.key_held == (race.first.phase.holds_lock() || race.second.phase.holds_lock())
}

/// Two callers that begin together.
pub open spec fn race_begins(settings: DownloadSettings) -> Race {
    Race {
        first: DownloadSession { phase: DownloadPhase::Start, waited_ms: 0, settings },
        second: DownloadSession { phase: DownloadPhase::Start, waited_ms: 0, settings },
        key_held: false,
        marker_exists: false,
    }
}

/// Of two callers after the same dataset, never more than one is downloading: in
/// whatever order they take their steps, at most one holds the lock, and the network
/// is used only by the one that does.
pub proof fn lemma_one_download_at_a_time(race: Race, event: DownloadEvent)
    requires
        one_at_a_time(race),
        agrees_with(race, event),
    ensures
        one_at_a_time(first_steps(race, event)),
        one_at_a_time(second_steps(race, event)),
        race.first.next(event).1.uses_network() ==> !race.second.phase.holds_lock(),
        race.second.next(event).1.uses_network() ==> !race.first.phase.holds_lock(),
        one_at_a_time(race_begins(race.first.settings)),
{
}

/// Once one caller has written the marker, nobody requests the archive again: every
/// other caller is handed the entry.
pub proof fn lemma_no_second_fetch(race: Race, event: DownloadEvent)
    requires
        race.marker_exists,
        agrees_with(race, event),
    ensures
        race.first.next(event).1 != DownloadAction::Fetch,
        race.second.next(event).1 != DownloadAction::Fetch,
        first_steps(race, event).marker_exists,
        second_steps(race, event).marker_exists,
{
}


/// One step of a race: who takes it, and what that caller reports.
pub struct RaceStep {
    /// Whether the first caller takes the step; the second does otherwise.
    pub by_first: bool,
    /// What the caller reports.
    pub event: DownloadEvent,
}

/// The download of the caller that takes `step`.
pub open spec fn stepper(race: Race, step: RaceStep) -> DownloadSession {
    if step.by_first {
        race.first
    } else {
        race.second
    }
}

/// The race after `step`.
pub open spec fn race_step(race: Race, step: RaceStep) -> Race {
    if step.by_first {
        first_steps(race, step.event)
    } else {
        second_steps(race, step.event)
    }
}

/// The race after `steps`, taken in order from `start`.
pub open spec fn race_after(start: Race, steps: Seq<RaceStep>) -> Race
    decreases steps.len(),
{
    if steps.len() == 0 {
        start
    } else {
        race_step(race_after(start, steps.drop_last()), steps.last())
    }
}

/// Whether every one of `steps` reports what agrees with the race as it stands when
/// the step is taken.
pub open spec fn run_agrees(start: Race, steps: Seq<RaceStep>) -> bool
    decreases steps.len(),
{
    steps.len() == 0 || (run_agrees(start, steps.drop_last()) && agrees_with(
        race_after(start, steps.drop_last()),
        steps.last().event,
    ))
}

/// What the caller that takes the last of `steps` is told to do.
pub open spec fn last_action(start: Race, steps: Seq<RaceStep>) -> DownloadAction
    recommends
        steps.len() > 0,
{
    stepper(race_after(start, steps.drop_last()), steps.last()).next(steps.last().event).1
}

/// How often the archive is requested in the course of `steps`, by either caller.
pub open spec fn fetches_in(start: Race, steps: Seq<RaceStep>) -> nat
    decreases steps.len(),
{
    if steps.len() == 0 {
        0
    } else {
        fetches_in(start, steps.drop_last()) + if last_action(start, steps)
            == DownloadAction::Fetch {
            1nat
        } else {
            0nat
        }
    }
}

/// How often, in the course of `steps`, a download fails after the archive was
/// requested and before the marker was written.
pub open spec fn failed_fetches_in(start: Race, steps: Seq<RaceStep>) -> nat
    decreases steps.len(),
{
    if steps.len() == 0 {
        0
    } else {
        failed_fetches_in(start, steps.drop_last()) + if last_action(start, steps) is Fail
            && stepper(race_after(start, steps.drop_last()), steps.last()).phase.entry_is_partial() {
            1nat
        } else {
            0nat
        }
    }
}

/// 1 if a request of the archive has led somewhere: the entry is being made by one
/// of the callers, or its marker is there. 0 otherwise.
pub open spec fn fetch_in_effect(race: Race) -> nat {
    if race.first.phase.entry_is_partial() || race.second.phase.entry_is_partial()
        || race.marker_exists {
        1
    } else {
        0
    }
}

/// What holds throughout a race: at most one caller holds the lock, and while a
/// caller is making the entry, the marker is not there yet.
pub open spec fn race_is_orderly(race: Race) -> bool {
    &&& one_at_a_time(race)
    &&& race.first.phase.entry_is_partial() || race.second.phase.entry_is_partial()
        ==> !race.marker_exists
}

/// Every request of the archive is accounted for: in any run of two callers after
/// the same dataset, in whatever order they take their steps, the archive has been
/// requested once for each download that failed after its request, and once more if
/// the entry is being made or is there.
pub proof fn lemma_fetches_are_accounted_for(settings: DownloadSettings, steps: Seq<RaceStep>)
    requires
        run_agrees(race_begins(settings), steps),
    ensures
        race_is_orderly(race_after(race_begins(settings), steps)),
        fetches_in(race_begins(settings), steps) == failed_fetches_in(
            race_begins(settings),
            steps,
        ) + fetch_in_effect(race_after(race_begins(settings), steps)),
    decreases steps.len(),
{
    if steps.len() > 0 {
        lemma_fetches_are_accounted_for(settings, steps.drop_last());
        let before = race_after(race_begins(settings), steps.drop_last());
        let step = steps.last();
        assert(agrees_with(before, step.event));
        assert(race_is_orderly(before));
        let after = race_step(before, step);
        assert(after == race_after(race_begins(settings), steps));
        lemma_one_download_at_a_time(before, step.event);
    }
}

/// Two callers, one request: as long as no download fails after its request, the
/// archive is requested at most once in all, and exactly once if the marker is there
/// in the end. When both callers are done, the key of the dataset is held by nobody
/// and no entry is left half made.
pub proof fn lemma_two_callers_one_fetch(settings: DownloadSettings, steps: Seq<RaceStep>)
    requires
        run_agrees(race_begins(settings), steps),
        failed_fetches_in(race_begins(settings), steps) == 0,
    ensures
        fetches_in(race_begins(settings), steps) <= 1,
        race_after(race_begins(settings), steps).marker_exists ==> fetches_in(
            race_begins(settings),
            steps,
        ) == 1,
        ({
            let end = race_after(race_begins(settings), steps);
            end.first.phase == DownloadPhase::Finished && end.second.phase
                == DownloadPhase::Finished ==> !end.key_held && (fetches_in(
                race_begins(settings),
                steps,
            ) == 1 <==> end.marker_exists)
        }),
{
    lemma_fetches_are_accounted_for(settings, steps);
}

} // verus!

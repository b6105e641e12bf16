//! Fetching one file of a dataset without the whole archive, and when to fall back to
//! the archive after all.

use crate::error::GaggleError;
use crate::reference::{fault_detail, name_part, owner_part, parse_dataset_path, reference_fault};
use crate::text::chars_of;
use vstd::prelude::*;
use vstd::string::StringExecFns;
use vstd::utf8::encode_utf8;

verus! {

/// Whether a file name is an absolute path: it begins with `/`.
pub open spec fn is_absolute(name: Seq<char>) -> bool {
    name.len() > 0 && name[0] == '/'
}

/// Whether the segment `..` begins at `at`: two dots, with the start of the name or
/// a `/` before them and the end of the name or a `/` after them.
pub open spec fn parent_segment_at(name: Seq<char>, at: int) -> bool {
    &&& 0 <= at
    &&& at + 2 <= name.len()
    &&& name[at] == '.'
    &&& name[at + 1] == '.'
    &&& (at == 0 || name[at - 1] == '/')
    &&& (at + 2 == name.len() || name[at + 2] == '/')
}

/// Whether one of the segments of a file name, as `/` separates them, is `..`.
pub open spec fn has_parent_segment(name: Seq<char>) -> bool {
    exists|at: int| parent_segment_at(name, at)
}

/// A file name that stays inside the directory it is joined to: relative, and
/// without a `..` segment.
pub open spec fn is_safe_filename(name: Seq<char>) -> bool {
    !is_absolute(name) && !has_parent_segment(name)
}

/// The detail of the error that rejects a file name.
pub open spec fn filename_fault_detail(name: Seq<char>) -> Seq<char> {
    if is_absolute(name) {
        "Absolute filenames are not allowed"@
    } else {
        "Filename must not contain parent or root components"@
    }
}

/// Accepts a file name that stays inside the dataset's directory, and rejects an
/// absolute one and one with a `..` segment.
pub fn validate_filename(filename: &str) -> (r: Result<(), GaggleError>)
    ensures
        is_safe_filename(filename@) ==> r is Ok,
        !is_safe_filename(filename@) ==> (r matches Err(GaggleError::InvalidDatasetPath(m)) && m@
            == filename_fault_detail(filename@)),
{
    let v = chars_of(filename);
    let n = v.len();
    if n > 0 && v[0] == '/' {
        return Err(
            GaggleError::InvalidDatasetPath(String::from_str("Absolute filenames are not allowed")),
        );
    }
    let mut i: usize = 0;
    while i < n
        invariant
            n == v@.len(),
            v@ == filename@,
            !is_absolute(v@),
            i <= n,
            forall|at: int| 0 <= at < i ==> !parent_segment_at(v@, at),
        decreases n - i,
    {
        if n - i >= 2 && v[i] == '.' && v[i + 1] == '.' && (i == 0 || v[i - 1] == '/') && (i + 2
            == n || v[i + 2] == '/') {
            assert(parent_segment_at(v@, i as int));
            return Err(
                GaggleError::InvalidDatasetPath(
                    String::from_str("Filename must not contain parent or root components"),
                ),
            );
        }
        i += 1;
    }
    Ok(())
}

/// The bytes that stand for themselves in a percent-encoded text: ASCII letters and
/// digits, `-`, `.`, `_` and `~`.
pub open spec fn is_unreserved(b: u8) -> bool {
    ||| 0x30 <= b <= 0x39
    ||| 0x41 <= b <= 0x5A
    ||| 0x61 <= b <= 0x7A
    ||| b == 0x2D
    ||| b == 0x2E
    ||| b == 0x5F
    ||| b == 0x7E
}

/// The upper-case hexadecimal digit for `d`, for `d` below 16.
pub open spec fn hex_digit(d: u8) -> char {
    if d < 10 {
        (0x30 + d) as u8 as char
    } else {
        (0x41 + d - 10) as u8 as char
    }
}

/// One byte, percent-encoded.
pub open spec fn percent_encode_byte(b: u8) -> Seq<char> {
    if is_unreserved(b) {
        seq![b as char]
    } else {
        seq!['%', hex_digit(b / 16), hex_digit(b % 16)]
    }
}

/// A sequence of bytes, percent-encoded byte by byte.
pub open spec fn percent_encode_bytes(bytes: Seq<u8>) -> Seq<char>
    decreases bytes.len(),
{
    if bytes.len() == 0 {
        Seq::empty()
    } else {
        percent_encode_byte(bytes[0]) + percent_encode_bytes(bytes.drop_first())
    }
}

/// A text, percent-encoded: every byte of its UTF-8 form that is not unreserved
/// becomes `%` and two upper-case hexadecimal digits.
pub open spec fn percent_encoded(text: Seq<char>) -> Seq<char> {
    percent_encode_bytes(encode_utf8(text))
}

/// Percent-encodes `data`. Calls `urlencoding::encode`, which keeps ASCII letters,
/// digits, `-`, `.`, `_` and `~` and writes every other byte of the UTF-8 form as `%`
/// and two upper-case hexadecimal digits; the contract says just that.
#[verifier::external_body]
pub(crate) fn url_encode(data: &str) -> (r: String)
    ensures
        r@ == percent_encoded(data@),
{
    urlencoding::encode(data).into_owned()
}

/// Address of one file of a dataset below `api_base`.
pub open spec fn single_file_url_text(
    api_base: Seq<char>,
    owner: Seq<char>,
    dataset: Seq<char>,
    filename: Seq<char>,
) -> Seq<char> {
    api_base + "/datasets/download/"@ + owner + "/"@ + dataset + "?fileName="@ + percent_encoded(
        filename,
    )
}

/// Address from which one file of a dataset is fetched.
pub fn single_file_url(api_base: &str, owner: &str, dataset: &str, filename: &str) -> (r: String)
    ensures
        r@ == single_file_url_text(api_base@, owner@, dataset@, filename@),
{
    let encoded = url_encode(filename);
    String::from_str(api_base).concat("/datasets/download/").concat(owner).concat("/").concat(
        dataset,
    ).concat("?fileName=").concat(encoded.as_str())
}

/// What fetching one file works with.
#[derive(Debug, Clone, PartialEq, Eq)]
pub struct FilePlan {
    /// Owner of the dataset.
    pub owner: String,
    /// Name of the dataset, which is also the directory of its cache entry.
    pub dataset: String,
    /// The file, as a path relative to the entry.
    pub filename: String,
    /// Address of the file.
    pub url: String,
}

/// Plans the fetch of the file `filename` of the dataset `dataset_path`, with the
/// remote service at `api_base`.
///
/// The file name is looked at first: an absolute one, or one with a `..` segment, is
/// rejected whatever the reference is. Then the reference must be of the form
/// `owner/dataset`.
pub fn get_dataset_file_path(dataset_path: &str, filename: &str, api_base: &str) -> (r: Result<
    FilePlan,
    GaggleError,
>)
    ensures
        !is_safe_filename(filename@) ==> (r matches Err(GaggleError::InvalidDatasetPath(m)) && m@
            == filename_fault_detail(filename@)),
        is_safe_filename(filename@) ==> match reference_fault(dataset_path@) {
            Some(f) => r matches Err(GaggleError::InvalidDatasetPath(m)) && m@ == fault_detail(
                f,
                dataset_path@,
            ),
            None => r matches Ok(plan) && {
                &&& plan.owner@ == owner_part(dataset_path@)
                &&& plan.dataset@ == name_part(dataset_path@)
                &&& plan.filename@ == filename@
                &&& plan.url@ == single_file_url_text(
                    api_base@,
                    owner_part(dataset_path@),
                    name_part(dataset_path@),
                    filename@,
                )
            },
        },
{
    match validate_filename(filename) {
        Err(e) => {
            return Err(e);
        },
        Ok(()) => {},
    }
    match parse_dataset_path(dataset_path) {
        Ok((owner, dataset)) => {
            let url = single_file_url(api_base, owner.as_str(), dataset.as_str(), filename);
            Ok(FilePlan { owner, dataset, filename: String::from_str(filename), url })
        },
        Err(e) => Err(e),
    }
}


/// Where the fetch of one file stands.
#[derive(Debug, Clone, Copy, PartialEq, Eq, Structural)]
pub enum FilePhase {
    /// Nothing has happened yet.
    Start,
    /// The file is being looked for in the cache.
    Checking,
    /// The entry's directory is being looked at, before anything is requested or
    /// created, to know whether the whole dataset may stand in for the file.
    Surveying,
    /// The file is being requested.
    Fetching,
    /// The answer is being written to its place.
    Storing,
    /// The whole dataset is being downloaded instead.
    Downloading,
    /// The file is being looked for in the downloaded dataset.
    Rechecking,
    /// The fetch is over.
    Finished,
}

impl FilePhase {
    /// The phases of the fallback to the whole dataset, and of the look at the entry
    /// that prepares it.
    pub open spec fn in_fallback(self) -> bool {
        self == FilePhase::Surveying || self == FilePhase::Downloading || self
            == FilePhase::Rechecking
    }

    /// The phases in which the file is requested or written.
    pub open spec fn in_fetch(self) -> bool {
        self == FilePhase::Fetching || self == FilePhase::Storing
    }
}

/// What the fetch of one file is configured with.
#[derive(Debug, Clone, Copy, PartialEq, Eq, Structural)]
pub struct FileSettings {
    /// No network may be used.
    pub offline: bool,
    /// A failed fetch is final: the whole dataset is not downloaded instead.
    pub strict: bool,
    /// The file is requested even if it is in the cache, unless offline.
    pub refetch: bool,
}

/// What the caller reports to the machine.
#[derive(Debug, Clone, PartialEq, Eq)]
pub enum FileEvent {
    /// The fetch begins.
    Started,
    /// The file was looked for; `true` if it is there.
    FileChecked(bool),
    /// The entry's directory was looked at; `true` if it is missing or empty.
    DirectoryChecked(bool),
    /// The remote service answered, with a success status or another, rendered in
    /// `status`.
    Responded { success: bool, status: String },
    /// The answer is written.
    Stored,
    /// The whole dataset is downloaded.
    Downloaded,
    /// The action could not be performed.
    Failed(GaggleError),
}

/// Why the fetch of a file failed.
#[derive(Debug, Clone, PartialEq, Eq)]
pub enum FileFailure {
    /// Offline, and the file is not cached.
    Offline,
    /// The remote service answered with a status that is no success.
    Status(String),
    /// The caller reported a failure.
    Reported(GaggleError),
    /// The caller reported something that the machine had not asked for.
    OutOfOrder,
}

/// What the caller is to do next.
#[derive(Debug, Clone, PartialEq, Eq)]
pub enum FileAction {
    /// Look for the file and report `FileChecked`.
    CheckFile,
    /// Look at the entry's directory, creating nothing, and report
    /// `DirectoryChecked`.
    CheckDirectory,
    /// Create the directories above the file, request it, report `Responded`.
    Fetch,
    /// Stream the answer to the file and report `Stored`.
    Store,
    /// Download the whole dataset and report `Downloaded`, or `Failed` with its error.
    DownloadAll,
    /// Hand out the path of the file.
    Finish,
    /// Fail.
    Fail(FileFailure),
}

/// The fetch of one file in progress.
#[derive(Debug, Clone, PartialEq, Eq)]
pub struct FileSession {
    /// Where the fetch stands.
    pub phase: FilePhase,
    /// What the fetch is configured with.
    pub settings: FileSettings,
    /// Whether the entry's directory was missing or empty before anything was
    /// requested; `false` until it was looked at.
    pub entry_was_empty: bool,
    /// Why the fetch itself failed, while the whole dataset is downloaded instead.
    pub pending: Option<FileFailure>,
}

impl FileSession {
    /// The end of the fetch with `failure`.
    pub open spec fn fail_with(self, failure: FileFailure) -> (FileSession, FileAction) {
        (
            FileSession { phase: FilePhase::Finished, pending: None, ..self },
            FileAction::Fail(failure),
        )
    }

    /// The end of the fetch with the failure that led to the fallback.
    pub open spec fn fail_with_pending(self) -> (FileSession, FileAction) {
        match self.pending {
            Some(failure) => self.fail_with(failure),
            None => self.fail_with(FileFailure::OutOfOrder),
        }
    }

    /// What a failed fetch leads to: the whole dataset, unless strict mode forbids it
    /// or the entry held something before the fetch; the end otherwise.
    pub open spec fn fall_back(self, failure: FileFailure) -> (FileSession, FileAction) {
        if !self.settings.strict && self.entry_was_empty {
            (
                FileSession { phase: FilePhase::Downloading, pending: Some(failure), ..self },
                FileAction::DownloadAll,
            )
        } else {
            self.fail_with(failure)
        }
    }

    /// The session in another phase, and the action that leads there.
    pub open spec fn go(self, phase: FilePhase, action: FileAction) -> (FileSession, FileAction) {
        (FileSession { phase, ..self }, action)
    }

    /// The session after the file is found, and the action that hands it out.
    pub open spec fn finish(self) -> (FileSession, FileAction) {
        (FileSession { phase: FilePhase::Finished, pending: None, ..self }, FileAction::Finish)
    }

    /// The transition of the machine: the session after `event`, and what the caller
    /// is to do next.
    pub open spec fn next(self, event: FileEvent) -> (FileSession, FileAction) {
        match (self.phase, event) {
            (FilePhase::Finished, FileEvent::Failed(_)) => self.fail_with(FileFailure::OutOfOrder),
            (_, FileEvent::Failed(e)) => if self.phase.in_fetch() {
                self.fall_back(FileFailure::Reported(e))
            } else {
                self.fail_with(FileFailure::Reported(e))
            },
            (FilePhase::Start, FileEvent::Started) => self.go(
                FilePhase::Checking,
                FileAction::CheckFile,
            ),
            (FilePhase::Checking, FileEvent::FileChecked(exists)) => if exists && (
            self.settings.offline || !self.settings.refetch) {
                self.finish()
            } else if self.settings.offline {
                self.fail_with(FileFailure::Offline)
            } else if self.settings.strict {
                self.go(FilePhase::Fetching, FileAction::Fetch)
            } else {
                self.go(FilePhase::Surveying, FileAction::CheckDirectory)
            },
            (FilePhase::Surveying, FileEvent::DirectoryChecked(missing_or_empty)) => (FileSession {
                entry_was_empty: missing_or_empty,
                ..self
            }).go(FilePhase::Fetching, FileAction::Fetch),
            (FilePhase::Fetching, FileEvent::Responded { success, status }) => if success {
                self.go(FilePhase::Storing, FileAction::Store)
            } else {
                self.fall_back(FileFailure::Status(status))
            },
            (FilePhase::Storing, FileEvent::Stored) => self.finish(),
            (FilePhase::Downloading, FileEvent::Downloaded) => self.go(
                FilePhase::Rechecking,
                FileAction::CheckFile,
            ),
            (FilePhase::Rechecking, FileEvent::FileChecked(exists)) => if exists {
                self.finish()
            } else {
                self.fail_with_pending()
            },
            _ => self.fail_with(FileFailure::OutOfOrder),
        }
    }

    /// What holds of every session that `new` and `step` produce: in strict mode the
    /// fallback is never entered or prepared, offline nothing is ever requested,
    /// the whole dataset is downloaded only where the entry was missing or empty
    /// before the fetch, and while it is, the failure that led to it is kept.
    pub open spec fn wf(self) -> bool {
        &&& self.settings.strict ==> !self.phase.in_fallback()
        &&& self.settings.offline ==> !self.phase.in_fetch() && !self.phase.in_fallback()
        &&& self.phase == FilePhase::Downloading || self.phase == FilePhase::Rechecking
            ==> self.pending is Some && self.entry_was_empty
        &&& self.phase == FilePhase::Start || self.phase == FilePhase::Checking
            ==> !self.entry_was_empty
    }

    /// A fetch that has not begun.
    pub fn new(settings: FileSettings) -> (r: FileSession)
        ensures
            r == (FileSession {
                phase: FilePhase::Start,
                settings,
                entry_was_empty: false,
                pending: None,
            }),
            r.wf(),
    {
        FileSession { phase: FilePhase::Start, settings, entry_was_empty: false, pending: None }
    }

    fn do_fail(&mut self, failure: FileFailure) -> (a: FileAction)
        ensures
            (*final(self), a) == old(self).fail_with(failure),
    {
        self.phase = FilePhase::Finished;
        self.pending = None;
        FileAction::Fail(failure)
    }

    fn do_fail_pending(&mut self) -> (a: FileAction)
        ensures
            (*final(self), a) == old(self).fail_with_pending(),
    {
        let pending = self.pending.take();
        self.phase = FilePhase::Finished;
        match pending {
            Some(failure) => FileAction::Fail(failure),
            None => FileAction::Fail(FileFailure::OutOfOrder),
        }
    }

    fn do_fall_back(&mut self, failure: FileFailure) -> (a: FileAction)
        ensures
            (*final(self), a) == old(self).fall_back(failure),
    {
        if !self.settings.strict && self.entry_was_empty {
            self.phase = FilePhase::Downloading;
            self.pending = Some(failure);
            FileAction::DownloadAll
        } else {
            self.do_fail(failure)
        }
    }

    fn do_go(&mut self, phase: FilePhase, action: FileAction) -> (a: FileAction)
        ensures
            (*final(self), a) == old(self).go(phase, action),
    {
        self.phase = phase;
        action
    }

    fn do_finish(&mut self) -> (a: FileAction)
        ensures
            (*final(self), a) == old(self).finish(),
    {
        self.phase = FilePhase::Finished;
        self.pending = None;
        FileAction::Finish
    }

    /// Takes in what happened and answers with what to do next.
    pub fn step(&mut self, event: FileEvent) -> (action: FileAction)
        ensures
            (*final(self), action) == old(self).next(event),
            old(self).wf() ==> final(self).wf(),
    {
        let phase = self.phase;
        match event {
            FileEvent::Failed(e) => {
                if phase == FilePhase::Finished {
                    self.do_fail(FileFailure::OutOfOrder)
                } else if phase == FilePhase::Fetching || phase == FilePhase::Storing {
                    self.do_fall_back(FileFailure::Reported(e))
                } else {
                    self.do_fail(FileFailure::Reported(e))
                }
            },
            FileEvent::Started => {
                if phase == FilePhase::Start {
                    self.do_go(FilePhase::Checking, FileAction::CheckFile)
                } else {
                    self.do_fail(FileFailure::OutOfOrder)
                }
            },
            FileEvent::FileChecked(exists) => {
                if phase == FilePhase::Checking {
                    if exists && (self.settings.offline || !self.settings.refetch) {
                        self.do_finish()
                    } else if self.settings.offline {
                        self.do_fail(FileFailure::Offline)
                    } else if self.settings.strict {
                        self.do_go(FilePhase::Fetching, FileAction::Fetch)
                    } else {
                        self.do_go(FilePhase::Surveying, FileAction::CheckDirectory)
                    }
                } else if phase == FilePhase::Rechecking {
                    if exists {
                        self.do_finish()
                    } else {
                        self.do_fail_pending()
                    }
                } else {
                    self.do_fail(FileFailure::OutOfOrder)
                }
            },
            FileEvent::DirectoryChecked(missing_or_empty) => {
                if phase == FilePhase::Surveying {
                    self.entry_was_empty = missing_or_empty;
                    self.do_go(FilePhase::Fetching, FileAction::Fetch)
                } else {
                    self.do_fail(FileFailure::OutOfOrder)
                }
            },
            FileEvent::Responded { success, status } => {
                if phase == FilePhase::Fetching {
                    if success {
                        self.do_go(FilePhase::Storing, FileAction::Store)
                    } else {
                        self.do_fall_back(FileFailure::Status(status))
                    }
                } else {
                    self.do_fail(FileFailure::OutOfOrder)
                }
            },
            FileEvent::Stored => {
                if phase == FilePhase::Storing {
                    self.do_finish()
                } else {
                    self.do_fail(FileFailure::OutOfOrder)
                }
            },
            FileEvent::Downloaded => {
                if phase == FilePhase::Downloading {
                    self.do_go(FilePhase::Rechecking, FileAction::CheckFile)
                } else {
                    self.do_fail(FileFailure::OutOfOrder)
                }
            },
        }
    }
}

impl FileFailure {
    /// Whether `e` is the error that reports the failure to fetch `filename` of
    /// `dataset_path`.
    pub open spec fn reported_as(self, filename: Seq<char>, dataset_path: Seq<char>, e: GaggleError)
        -> bool {
        match self {
            FileFailure::Offline => e matches GaggleError::HttpRequestError(m) && m@
                == "Offline mode enabled; cannot download '"@ + filename + "' from '"@ + dataset_path
                + "'."@,
            FileFailure::Status(status) => e matches GaggleError::HttpRequestError(m) && m@
                == "Failed to download file '"@ + filename + "': HTTP "@ + status@,
            FileFailure::Reported(inner) => e == inner,
            FileFailure::OutOfOrder => e matches GaggleError::IoError(m) && m@
                == "Fetch steps were reported out of order"@,
        }
    }

    /// Turns the failure into the error that the caller of the fetch gets.
    pub fn into_error(self, filename: &str, dataset_path: &str) -> (e: GaggleError)
        ensures
            self.reported_as(filename@, dataset_path@, e),
    {
        match self {
            FileFailure::Offline => GaggleError::HttpRequestError(
                String::from_str("Offline mode enabled; cannot download '").concat(filename).concat(
                    "' from '",
                ).concat(dataset_path).concat("'."),
            ),
            FileFailure::Status(status) => GaggleError::HttpRequestError(
                String::from_str("Failed to download file '").concat(filename).concat(
                    "': HTTP ",
                ).concat(status.as_str()),
            ),
            FileFailure::Reported(inner) => inner,
            FileFailure::OutOfOrder => GaggleError::IoError(
                String::from_str("Fetch steps were reported out of order"),
            ),
        }
    }
}

/// In strict mode the whole dataset is never downloaded in place of a file: no step
/// asks for it or looks at the entry to decide on it, whatever is reported.
pub proof fn lemma_strict_never_falls_back(s: FileSession, event: FileEvent)
    requires
        s.wf(),
        s.settings.strict,
    ensures
        s.next(event).1 != FileAction::DownloadAll,
        s.next(event).1 != FileAction::CheckDirectory,
        s.next(event).0.wf(),
{
}

/// In strict mode a fetch that fails ends with that failure.
pub proof fn lemma_strict_failure_is_final(s: FileSession, status: String, e: GaggleError)
    requires
        s.settings.strict,
        s.phase == FilePhase::Fetching,
    ensures
        s.next(FileEvent::Responded { success: false, status }).1 == FileAction::Fail(
            FileFailure::Status(status),
        ),
        s.next(FileEvent::Failed(e)).1 == FileAction::Fail(FileFailure::Reported(e)),
{
}

/// Offline, no step asks for the file or for the dataset, whatever is reported: a
/// file that is not in the cache fails the fetch at once.
pub proof fn lemma_offline_never_fetches_file(s: FileSession, event: FileEvent)
    requires
        s.wf(),
        s.settings.offline,
    ensures
        s.next(event).1 != FileAction::Fetch,
        s.next(event).1 != FileAction::Store,
        s.next(event).1 != FileAction::DownloadAll,
        s.next(event).1 != FileAction::CheckDirectory,
        s.phase == FilePhase::Checking ==> s.next(FileEvent::FileChecked(false)).1
            == FileAction::Fail(FileFailure::Offline),
        s.next(event).0.wf(),
{
}

/// A file that is in the cache is handed out at once, unless it is to be requested
/// anew.
pub proof fn lemma_cached_file_is_served(settings: FileSettings)
    requires
        settings.offline || !settings.refetch,
    ensures
        ({
            let s0 = FileSession {
                phase: FilePhase::Start,
                settings,
                entry_was_empty: false,
                pending: None,
            };
            let (s1, a1) = s0.next(FileEvent::Started);
            let (s2, a2) = s1.next(FileEvent::FileChecked(true));
            a1 == FileAction::CheckFile && a2 == FileAction::Finish
        }),
{
}

/// The entry is looked at before anything is requested or created: without strict
/// mode, a file that has to be obtained leads to the look at the entry first, and to
/// the request only after that.
pub proof fn lemma_entry_is_surveyed_first(s: FileSession, event: FileEvent)
    requires
        s.wf(),
        !s.settings.strict,
    ensures
        s.next(event).1 == FileAction::Fetch ==> s.phase == FilePhase::Surveying,
        forall|found: bool|
            s.phase == FilePhase::Surveying ==> (#[trigger] s.next(
                FileEvent::DirectoryChecked(found),
            )).0.entry_was_empty == found,
        s.next(event).0.phase.in_fetch() && s.phase.in_fetch() ==> s.next(event).0.entry_was_empty
            == s.entry_was_empty,
{
}

/// Without strict mode, a failed fetch leads to the whole dataset exactly when the
/// entry was missing or empty before the fetch; otherwise, and when the file is not
/// in the downloaded dataset either, the fetch fails with the failure of the fetch
/// itself.
pub proof fn lemma_fallback_rule(s: FileSession, status: String)
    requires
        s.phase == FilePhase::Fetching,
        !s.settings.strict,
    ensures
        ({
            let failure = FileFailure::Status(status);
            let (s1, a1) = s.next(FileEvent::Responded { success: false, status });
            let (s2, a2) = s1.next(FileEvent::Downloaded);
            &&& !s.entry_was_empty ==> a1 == FileAction::Fail(failure)
            &&& s.entry_was_empty ==> {
                &&& a1 == FileAction::DownloadAll
                &&& a2 == FileAction::CheckFile
                &&& s2.next(FileEvent::FileChecked(true)).1 == FileAction::Finish
                &&& s2.next(FileEvent::FileChecked(false)).1 == FileAction::Fail(failure)
            }
        }),
{
}

/// A file of a dataset that is not in the cache at all is served from the whole
/// dataset when its own fetch fails: with the entry missing before the fetch, the
/// steps lead from the failed request to the download and to the file in it,
/// wherever in the dataset the file lies.
pub proof fn lemma_missing_dataset_is_downloaded(settings: FileSettings, status: String)
    requires
        !settings.strict,
        !settings.offline,
    ensures
        ({
            let s0 = FileSession {
                phase: FilePhase::Start,
                settings,
                entry_was_empty: false,
                pending: None,
            };
            let (s1, a1) = s0.next(FileEvent::Started);
            let (s2, a2) = s1.next(FileEvent::FileChecked(false));
            let (s3, a3) = s2.next(FileEvent::DirectoryChecked(true));
            let (s4, a4) = s3.next(FileEvent::Responded { success: false, status });
            let (s5, a5) = s4.next(FileEvent::Downloaded);
            let (s6, a6) = s5.next(FileEvent::FileChecked(true));
            &&& a1 == FileAction::CheckFile
            &&& a2 == FileAction::CheckDirectory
            &&& a3 == FileAction::Fetch
            &&& a4 == FileAction::DownloadAll
            &&& a5 == FileAction::CheckFile
            &&& a6 == FileAction::Finish
        }),
{
}

} // verus!

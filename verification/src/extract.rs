//! Safe extraction of an archive: which entries are written, which are skipped, and
//! which end the extraction. The caller reads the archive and writes the files; what
//! happens to each entry is decided here.

use crate::error::GaggleError;
use crate::text::{chars_of, debug_quoted, decimal_string, decimal_text, quote_debug};
use vstd::prelude::*;
use vstd::string::StringExecFns;

verus! {

/// Ceiling on the declared uncompressed size of all files of one archive: 10 GiB.
pub const MAX_TOTAL_SIZE: u64 = 10 * 1024 * 1024 * 1024;

/// Ceiling on the ratio of uncompressed to compressed size of one entry.
pub const MAX_COMPRESSION_RATIO: u64 = 100;

/// The bits of a Unix mode that give the file type.
pub const FILE_TYPE_MASK: u32 = 0o170000;

/// The file type of a symbolic link.
pub const FILE_TYPE_SYMLINK: u32 = 0o120000;

/// What the extractor reads of one entry of an archive.
#[derive(Debug, Clone, PartialEq, Eq)]
pub struct EntryInfo {
    /// The name as the archive stores it.
    pub name: String,
    /// The Unix mode, where the archive records one.
    pub unix_mode: Option<u32>,
    /// The name as a relative path that stays below the directory it is joined to;
    /// `None` where the name cannot be read as such a path.
    pub enclosed_name: Option<String>,
    /// Whether the archive marks the entry as a directory.
    pub is_dir: bool,
    /// Declared size in bytes when uncompressed.
    pub size: u64,
    /// Size in bytes in the archive.
    pub compressed_size: u64,
}

impl EntryInfo {
    /// Whether the mode marks the entry as a symbolic link.
    pub open spec fn is_symlink(self) -> bool {
        self.unix_mode matches Some(mode) && mode & FILE_TYPE_MASK == FILE_TYPE_SYMLINK
    }

    /// Whether the entry stands for a directory: it is marked so, or its name ends in `/`.
    pub open spec fn is_directory(self) -> bool {
        self.is_dir || (self.name@.len() > 0 && self.name@.last() == '/')
    }

    /// Whether the entry may be written at all, so that the caller has to find out
    /// where it would land: it is no symbolic link and has a safe name.
    pub open spec fn needs_parent(self) -> bool {
        !self.is_symlink() && self.enclosed_name is Some
    }

    /// Whether the entry expands by more than `MAX_COMPRESSION_RATIO`: it declares
    /// more bytes than that many times the bytes it takes up in the archive. An entry
    /// that takes up nothing must declare nothing.
    pub open spec fn expands_too_much(self) -> bool {
        self.size > MAX_COMPRESSION_RATIO * self.compressed_size
    }
}

impl EntryInfo {
    /// Whether the caller has to find out where the entry would land before the
    /// entry is decided on.
    pub fn needs_parent_check(&self) -> (r: bool)
        ensures
            r == self.needs_parent(),
    {
        let symlink = match self.unix_mode {
            Some(mode) => mode & FILE_TYPE_MASK == FILE_TYPE_SYMLINK,
            None => false,
        };
        !symlink && self.enclosed_name.is_some()
    }
}

/// Where an entry would really be written, once links are resolved: where the
/// directory is that it would be written into or, while that is yet to be created,
/// the nearest directory above it that exists.
#[derive(Debug, Clone, PartialEq, Eq)]
pub enum ParentCheck {
    /// Below the destination, or the destination itself.
    Inside,
    /// Somewhere else.
    Outside,
    /// It could not be resolved, for the reason given.
    Unresolved(String),
}

/// Why an entry ends the extraction.
#[derive(Debug, Clone, PartialEq, Eq)]
pub enum ExtractFault {
    /// The entry is a symbolic link.
    Symlink,
    /// The directory to write into could not be resolved.
    ParentUnresolved(String),
    /// The directory to write into lies outside the destination.
    Traversal,
    /// The declared sizes add up to more than `MAX_TOTAL_SIZE`.
    TooLarge,
    /// The entry expands by more than `MAX_COMPRESSION_RATIO`; its declared size and
    /// its size in the archive are given.
    Ratio { size: u64, compressed_size: u64 },
}

/// What is done with one entry.
#[derive(Debug, Clone, PartialEq, Eq)]
pub enum EntryAction {
    /// Nothing: the name is no safe relative path.
    Skip,
    /// The directory is created.
    CreateDir,
    /// The file is written and counted.
    WriteFile,
    /// The extraction ends with an error.
    Reject(ExtractFault),
}

impl EntryAction {
    /// The actions that create something on disk.
    pub open spec fn writes(self) -> bool {
        self == EntryAction::CreateDir || self == EntryAction::WriteFile
    }
}

/// What is done with an entry, given the declared size of the files written before it.
pub open spec fn entry_action(total: nat, info: EntryInfo, parent: ParentCheck) -> EntryAction {
    if info.is_symlink() {
        EntryAction::Reject(ExtractFault::Symlink)
    } else if info.enclosed_name is None {
        EntryAction::Skip
    } else {
        match parent {
            ParentCheck::Unresolved(reason) => EntryAction::Reject(
                ExtractFault::ParentUnresolved(reason),
            ),
            ParentCheck::Outside => EntryAction::Reject(ExtractFault::Traversal),
            ParentCheck::Inside => if info.is_directory() {
                EntryAction::CreateDir
            } else if total + info.size > MAX_TOTAL_SIZE {
                EntryAction::Reject(ExtractFault::TooLarge)
            } else if info.expands_too_much() {
                EntryAction::Reject(
                    ExtractFault::Ratio { size: info.size, compressed_size: info.compressed_size },
                )
            } else {
                EntryAction::WriteFile
            },
        }
    }
}

/// The running state of one extraction.
pub struct Extractor {
    total_size: u64,
    files_extracted: usize,
}

impl Extractor {
    /// Declared size of the files written so far.
    pub closed spec fn total(self) -> nat {
        self.total_size as nat
    }

    /// Number of files written so far.
    pub closed spec fn files(self) -> nat {
        self.files_extracted as nat
    }

    /// The files written so far are within the size ceiling.
    pub closed spec fn wf(self) -> bool {
        self.total_size <= MAX_TOTAL_SIZE
    }

    /// An extraction that has written nothing yet.
    pub fn new() -> (r: Extractor)
        ensures
            r.wf(),
            r.total() == 0,
            r.files() == 0,
    {
        Extractor { total_size: 0, files_extracted: 0 }
    }

    /// Number of files written so far: the result of an extraction that got through
    /// all entries.
    pub fn files_extracted(&self) -> (r: usize)
        ensures
            r == self.files(),
    {
        self.files_extracted
    }

    /// Declared size of the files written so far.
    pub fn total_size(&self) -> (r: u64)
        ensures
            r == self.total(),
    {
        self.total_size
    }

    /// Decides what is done with the next entry, and counts it where it is written.
    /// `parent` tells where the entry would land; it is looked at only for an entry
    /// for which `needs_parent_check` holds.
    pub fn step(&mut self, info: &EntryInfo, parent: ParentCheck) -> (action: EntryAction)
        requires
            old(self).wf(),
            old(self).files() < usize::MAX,
        ensures
            final(self).wf(),
            action == entry_action(old(self).total(), *info, parent),
            final(self).total() == old(self).total() + if action == EntryAction::WriteFile {
                info.size as nat
            } else {
                0
            },
            final(self).files() == old(self).files() + if action == EntryAction::WriteFile {
                1nat
            } else {
                0
            },
    {
        if let Some(mode) = info.unix_mode {
            if mode & FILE_TYPE_MASK == FILE_TYPE_SYMLINK {
                return EntryAction::Reject(ExtractFault::Symlink);
            }
        }
        if info.enclosed_name.is_none() {
            return EntryAction::Skip;
        }
        match parent {
            ParentCheck::Unresolved(reason) => EntryAction::Reject(
                ExtractFault::ParentUnresolved(reason),
            ),
            ParentCheck::Outside => EntryAction::Reject(ExtractFault::Traversal),
            ParentCheck::Inside => {
                if info.is_dir || ends_with_slash(info.name.as_str()) {
                    return EntryAction::CreateDir;
                }
                if info.size > MAX_TOTAL_SIZE - self.total_size {
                    return EntryAction::Reject(ExtractFault::TooLarge);
                }
                if info.compressed_size <= u64::MAX / MAX_COMPRESSION_RATIO && info.size
                    > MAX_COMPRESSION_RATIO * info.compressed_size {
                    return EntryAction::Reject(
                        ExtractFault::Ratio {
                            size: info.size,
                            compressed_size: info.compressed_size,
                        },
                    );
                }
                self.total_size = self.total_size + info.size;
                self.files_extracted = self.files_extracted + 1;
                EntryAction::WriteFile
            },
        }
    }
}

/// Whether `name` ends in `/`.
fn ends_with_slash(name: &str) -> (r: bool)
    ensures
        r == (name@.len() > 0 && name@.last() == '/'),
{
    let v = chars_of(name);
    v.len() > 0 && v[v.len() - 1] == '/'
}

/// The detail of the error that reports `fault` for the entry `info`.
pub open spec fn extract_fault_detail(fault: ExtractFault, info: EntryInfo) -> Seq<char> {
    let shown = match info.enclosed_name {
        Some(path) => path@,
        None => info.name@,
    };
    match fault {
        ExtractFault::Symlink => "Symlink entry not allowed in archive: "@ + info.name@,
        ExtractFault::ParentUnresolved(reason) =>
            "Failed to canonicalize parent directory for "@ + shown + ": "@ + reason@,
        ExtractFault::Traversal => "Path traversal attempt detected: "@ + debug_quoted(info.name@),
        ExtractFault::TooLarge => "ZIP file too large: uncompressed size exceeds 10 GB"@,
        ExtractFault::Ratio { size, compressed_size } => "Excessive compression ratio ("@
            + decimal_text(size as nat) + ":"@ + decimal_text(compressed_size as nat)
            + ") for entry "@ + shown,
    }
}

/// The error that ends the extraction at the entry `info` for the reason `fault`.
pub fn extract_error(fault: ExtractFault, info: &EntryInfo) -> (e: GaggleError)
    ensures
        e matches GaggleError::ZipError(m) && m@ == extract_fault_detail(fault, *info),
{
    let shown: &str = match &info.enclosed_name {
        Some(path) => path.as_str(),
        None => info.name.as_str(),
    };
    let detail = match fault {
        ExtractFault::Symlink => String::from_str("Symlink entry not allowed in archive: ").concat(
            info.name.as_str(),
        ),
        ExtractFault::ParentUnresolved(reason) => String::from_str(
            "Failed to canonicalize parent directory for ",
        ).concat(shown).concat(": ").concat(reason.as_str()),
        ExtractFault::Traversal => {
            let quoted = quote_debug(info.name.as_str());
            String::from_str("Path traversal attempt detected: ").concat(quoted.as_str())
        },
        ExtractFault::TooLarge => String::from_str(
            "ZIP file too large: uncompressed size exceeds 10 GB",
        ),
        ExtractFault::Ratio { size, compressed_size } => {
            let declared = decimal_string(size);
            let stored = decimal_string(compressed_size);
            String::from_str("Excessive compression ratio (").concat(declared.as_str()).concat(
                ":",
            ).concat(stored.as_str()).concat(") for entry ").concat(shown)
        },
    };
    GaggleError::ZipError(detail)
}


/// One entry together with what the caller found out about its parent directory.
pub struct Observed {
    /// The entry.
    pub info: EntryInfo,
    /// Where the entry would land.
    pub parent: ParentCheck,
}

/// What is done with each entry in turn, starting with `total` bytes already written,
/// up to and including the entry that ends the extraction.
pub open spec fn actions_from(total: nat, entries: Seq<Observed>) -> Seq<EntryAction>
    decreases entries.len(),
{
    if entries.len() == 0 {
        Seq::empty()
    } else {
        let action = entry_action(total, entries[0].info, entries[0].parent);
        if action is Reject {
            seq![action]
        } else if action == EntryAction::WriteFile {
            seq![action] + actions_from((total + entries[0].info.size) as nat, entries.drop_first())
        } else {
            seq![action] + actions_from(total, entries.drop_first())
        }
    }
}

/// The result of an extraction that starts with `total` bytes and `files` files
/// written: the number of files written in the end, or the fault that ended it.
pub open spec fn outcome_from(total: nat, files: nat, entries: Seq<Observed>) -> Result<
    nat,
    ExtractFault,
>
    decreases entries.len(),
{
    if entries.len() == 0 {
        Ok(files)
    } else {
        match entry_action(total, entries[0].info, entries[0].parent) {
            EntryAction::Reject(fault) => Err(fault),
            EntryAction::WriteFile => outcome_from(
                (total + entries[0].info.size) as nat,
                files + 1,
                entries.drop_first(),
            ),
            _ => outcome_from(total, files, entries.drop_first()),
        }
    }
}

/// What is done with the entries of an archive.
pub open spec fn extraction_actions(entries: Seq<Observed>) -> Seq<EntryAction> {
    actions_from(0, entries)
}

/// The result of extracting an archive.
pub open spec fn extraction_outcome(entries: Seq<Observed>) -> Result<nat, ExtractFault> {
    outcome_from(0, 0, entries)
}

/// An entry that is admitted as a directory: no symbolic link, with a safe name,
/// landing below the destination, and a directory.
pub open spec fn is_admitted_directory(e: Observed) -> bool {
    &&& !e.info.is_symlink()
    &&& e.info.enclosed_name is Some
    &&& e.parent == ParentCheck::Inside
    &&& e.info.is_directory()
}

/// An entry that is a file with nothing against it but, possibly, the size of the
/// archive.
pub open spec fn is_plain_file(e: Observed) -> bool {
    &&& !e.info.is_symlink()
    &&& e.info.enclosed_name is Some
    &&& e.parent == ParentCheck::Inside
    &&& !e.info.is_directory()
    &&& !e.info.expands_too_much()
}

/// Sum of the declared sizes of `entries`.
pub open spec fn declared_size(entries: Seq<Observed>) -> nat
    decreases entries.len(),
{
    if entries.len() == 0 {
        0
    } else {
        entries[0].info.size as nat + declared_size(entries.drop_first())
    }
}

/// Something is created on disk only for an entry that is no symbolic link, has a safe
/// relative name, and lands below the destination. An entry whose name would escape is
/// skipped; one whose directory lies outside ends the extraction.
pub proof fn lemma_nothing_written_outside(total: nat, info: EntryInfo, parent: ParentCheck)
    ensures
        entry_action(total, info, parent).writes() ==> !info.is_symlink() && info.enclosed_name
            is Some && parent == ParentCheck::Inside,
        !info.is_symlink() && info.enclosed_name is None ==> entry_action(total, info, parent)
            == EntryAction::Skip,
        !info.is_symlink() && info.enclosed_name is Some && parent == ParentCheck::Outside
            ==> entry_action(total, info, parent) == EntryAction::Reject(ExtractFault::Traversal),
{
}

/// A file is written only if it fits: afterwards the declared sizes of the files
/// written are still within the ceiling.
pub proof fn lemma_written_files_fit(total: nat, info: EntryInfo, parent: ParentCheck)
    ensures
        entry_action(total, info, parent) == EntryAction::WriteFile ==> total + info.size
            <= MAX_TOTAL_SIZE && info.size <= MAX_COMPRESSION_RATIO * info.compressed_size,
{
}

/// An archive of nothing but directories: each is created, no file is written, and
/// the extraction succeeds with 0 files.
pub proof fn lemma_directories_only(total: nat, files: nat, entries: Seq<Observed>)
    requires
        forall|i: int| 0 <= i < entries.len() ==> is_admitted_directory(#[trigger] entries[i]),
    ensures
        outcome_from(total, files, entries) == Ok::<nat, ExtractFault>(files),
        actions_from(total, entries).len() == entries.len(),
        forall|i: int|
            0 <= i < entries.len() ==> #[trigger] actions_from(total, entries)[i]
                == EntryAction::CreateDir,
    decreases entries.len(),
{
    if entries.len() > 0 {
        let rest = entries.drop_first();
        assert(is_admitted_directory(entries[0]));
        assert forall|i: int| 0 <= i < rest.len() implies is_admitted_directory(
            #[trigger] rest[i],
        ) by {
            assert(rest[i] == entries[i + 1]);
        }
        lemma_directories_only(total, files, rest);
        assert forall|i: int| 0 <= i < entries.len() implies #[trigger] actions_from(
            total,
            entries,
        )[i] == EntryAction::CreateDir by {
            if i > 0 {
                assert(actions_from(total, entries)[i] == actions_from(total, rest)[i - 1]);
            }
        }
    }
}

/// The extraction stops at the first entry that is rejected: a rejection is the last
/// action, and no more actions are taken than there are entries.
pub proof fn lemma_rejection_is_last(total: nat, entries: Seq<Observed>)
    ensures
        actions_from(total, entries).len() <= entries.len(),
        forall|i: int|
            0 <= i < actions_from(total, entries).len() && #[trigger] actions_from(
                total,
                entries,
            )[i] is Reject ==> i == actions_from(total, entries).len() - 1,
        outcome_from(total, 0, entries) is Err <==> actions_from(total, entries).len() > 0
            && actions_from(total, entries).last() is Reject,
    decreases entries.len(),
{
    if entries.len() > 0 {
        let action = entry_action(total, entries[0].info, entries[0].parent);
        let rest = entries.drop_first();
        if action is Reject {
        } else {
            let next_total = if action == EntryAction::WriteFile {
                (total + entries[0].info.size) as nat
            } else {
                total
            };
            lemma_rejection_is_last(next_total, rest);
            lemma_outcome_files_shift(next_total, 0, 1, rest);
            let all = actions_from(total, entries);
            let tail = actions_from(next_total, rest);
            assert(all =~= seq![action] + tail);
            assert forall|i: int| 0 <= i < all.len() && #[trigger] all[i] is Reject implies i
                == all.len() - 1 by {
                if i > 0 {
                    assert(all[i] == tail[i - 1]);
                }
            }
            if tail.len() > 0 {
                assert(all.last() == tail.last());
            }
        }
    }
}

/// Whether an extraction fails does not depend on the number of files counted before.
pub proof fn lemma_outcome_files_shift(total: nat, files: nat, more: nat, entries: Seq<Observed>)
    ensures
        outcome_from(total, files, entries) is Err <==> outcome_from(total, files + more, entries)
            is Err,
        outcome_from(total, files, entries) is Err ==> outcome_from(total, files, entries)
            == outcome_from(total, files + more, entries),
        outcome_from(total, files, entries) matches Ok(n) ==> outcome_from(
            total,
            files + more,
            entries,
        ) == Ok::<nat, ExtractFault>(n + more),
    decreases entries.len(),
{
    if entries.len() > 0 {
        let action = entry_action(total, entries[0].info, entries[0].parent);
        let rest = entries.drop_first();
        if action is Reject {
        } else if action == EntryAction::WriteFile {
            lemma_outcome_files_shift((total + entries[0].info.size) as nat, files + 1, more, rest);
        } else {
            lemma_outcome_files_shift(total, files, more, rest);
        }
    }
}

/// An archive of plain files whose declared sizes add up to more than the ceiling is
/// rejected as too large.
pub proof fn lemma_oversized_archive_rejected(total: nat, files: nat, entries: Seq<Observed>)
    requires
        forall|i: int| 0 <= i < entries.len() ==> is_plain_file(#[trigger] entries[i]),
        total + declared_size(entries) > MAX_TOTAL_SIZE,
        total <= MAX_TOTAL_SIZE,
    ensures
        outcome_from(total, files, entries) == Err::<nat, ExtractFault>(ExtractFault::TooLarge),
    decreases entries.len(),
{
    if entries.len() > 0 {
        let rest = entries.drop_first();
        assert(is_plain_file(entries[0]));
        if total + entries[0].info.size > MAX_TOTAL_SIZE {
        } else {
            assert forall|i: int| 0 <= i < rest.len() implies is_plain_file(#[trigger] rest[i]) by {
                assert(rest[i] == entries[i + 1]);
            }
            lemma_oversized_archive_rejected((total + entries[0].info.size) as nat, files + 1, rest);
        }
    }
}


/// How far an extraction gets: the declared size and the number of the files written
/// once all `entries` are through, starting with `total` bytes and `files` files, or
/// the fault that ended it.
pub open spec fn progress_from(total: nat, files: nat, entries: Seq<Observed>) -> Result<
    (nat, nat),
    ExtractFault,
>
    decreases entries.len(),
{
    if entries.len() == 0 {
        Ok((total, files))
    } else {
        match entry_action(total, entries[0].info, entries[0].parent) {
            EntryAction::Reject(fault) => Err(fault),
            EntryAction::WriteFile => progress_from(
                (total + entries[0].info.size) as nat,
                files + 1,
                entries.drop_first(),
            ),
            _ => progress_from(total, files, entries.drop_first()),
        }
    }
}

/// The outcome of an extraction is the number of files that its progress counts.
pub proof fn lemma_outcome_is_progress(total: nat, files: nat, entries: Seq<Observed>)
    ensures
        outcome_from(total, files, entries) == match progress_from(total, files, entries) {
            Ok(reached) => Ok::<nat, ExtractFault>(reached.1),
            Err(fault) => Err(fault),
        },
    decreases entries.len(),
{
    if entries.len() > 0 {
        match entry_action(total, entries[0].info, entries[0].parent) {
            EntryAction::Reject(_) => {},
            EntryAction::WriteFile => {
                lemma_outcome_is_progress(
                    (total + entries[0].info.size) as nat,
                    files + 1,
                    entries.drop_first(),
                );
            },
            _ => {
                lemma_outcome_is_progress(total, files, entries.drop_first());
            },
        }
    }
}

/// Where an extraction stands after one more entry that is not rejected.
pub open spec fn progress_after(reached: (nat, nat), next: Observed) -> Result<
    (nat, nat),
    ExtractFault,
> {
    match entry_action(reached.0, next.info, next.parent) {
        EntryAction::Reject(fault) => Err(fault),
        EntryAction::WriteFile => Ok(((reached.0 + next.info.size) as nat, reached.1 + 1)),
        _ => Ok(reached),
    }
}

/// One more entry carries the progress on from where it stands.
pub proof fn lemma_progress_push(total: nat, files: nat, entries: Seq<Observed>, next: Observed)
    ensures
        progress_from(total, files, entries.push(next)) == match progress_from(
            total,
            files,
            entries,
        ) {
            Err(fault) => Err::<(nat, nat), ExtractFault>(fault),
            Ok(reached) => progress_after(reached, next),
        },
    decreases entries.len(),
{
    let longer = entries.push(next);
    if entries.len() == 0 {
        assert(longer[0] == next);
        assert(longer.drop_first() =~= entries);
        assert(progress_from(total, files, entries) == Ok::<(nat, nat), ExtractFault>(
            (total, files),
        ));
        let more = (total + next.info.size) as nat;
        assert(progress_from(more, files + 1, entries) == Ok::<(nat, nat), ExtractFault>(
            (more, files + 1),
        ));
    } else {
        let rest = entries.drop_first();
        assert(longer[0] == entries[0]);
        assert(longer.drop_first() =~= rest.push(next));
        let action = entry_action(total, entries[0].info, entries[0].parent);
        if action is Reject {
        } else if action == EntryAction::WriteFile {
            lemma_progress_push((total + entries[0].info.size) as nat, files + 1, rest, next);
        } else {
            lemma_progress_push(total, files, rest, next);
        }
    }
}

/// The actions of an extraction that gets through `entries` plus one more entry.
pub proof fn lemma_actions_push(total: nat, files: nat, entries: Seq<Observed>, next: Observed)
    requires
        progress_from(total, files, entries) is Ok,
    ensures
        actions_from(total, entries).len() == entries.len(),
        actions_from(total, entries.push(next)) == actions_from(total, entries).push(
            entry_action(
                progress_from(total, files, entries)->Ok_0.0,
                next.info,
                next.parent,
            ),
        ),
    decreases entries.len(),
{
    let longer = entries.push(next);
    if entries.len() == 0 {
        assert(longer[0] == next);
        assert(longer.drop_first() =~= entries);
        let action = entry_action(total, next.info, next.parent);
        assert(actions_from(total, entries) =~= Seq::<EntryAction>::empty());
        assert(actions_from((total + next.info.size) as nat, entries) =~= Seq::<
            EntryAction,
        >::empty());
        assert(actions_from(total, longer) =~= seq![action]);
        assert(actions_from(total, entries).push(action) =~= seq![action]);
    } else {
        let rest = entries.drop_first();
        assert(longer[0] == entries[0]);
        assert(longer.drop_first() =~= rest.push(next));
        let action = entry_action(total, entries[0].info, entries[0].parent);
        let after: nat = if action == EntryAction::WriteFile {
            (total + entries[0].info.size) as nat
        } else {
            total
        };
        let counted: nat = if action == EntryAction::WriteFile {
            files + 1
        } else {
            files
        };
        assert(!(action is Reject));
        assert(progress_from(total, files, entries) == progress_from(after, counted, rest));
        lemma_actions_push(after, counted, rest, next);
        let last = entry_action(
            progress_from(total, files, entries)->Ok_0.0,
            next.info,
            next.parent,
        );
        assert(actions_from(total, longer) =~= seq![action] + actions_from(after, rest.push(next)));
        assert(actions_from(total, entries) =~= seq![action] + actions_from(after, rest));
        assert(actions_from(total, longer) =~= actions_from(total, entries).push(last));
    }
}

/// Whether `write` did what the first `upto` of `seen` asked of it: for each of them
/// that creates something on disk, it was handed the entry and the action and
/// succeeded.
pub open spec fn written<W: Fn(usize, &EntryInfo, &EntryAction) -> Result<(), GaggleError>>(
    write: W,
    seen: Seq<Observed>,
    upto: int,
) -> bool {
    forall|i: int|
        0 <= i < upto && i < extraction_actions(seen).len() && (
        #[trigger] extraction_actions(seen)[i]).writes() ==> write.ensures(
            (i as usize, &seen[i].info, &extraction_actions(seen)[i]),
            Ok(()),
        )
}

/// Whether `e` is the error for an extraction that ended with the rejection of the
/// last of `seen`.
pub open spec fn reports_rejection(seen: Seq<Observed>, e: GaggleError) -> bool {
    seen.len() > 0 && match extraction_outcome(seen) {
        Err(fault) => e matches GaggleError::ZipError(m) && m@ == extract_fault_detail(
            fault,
            seen.last().info,
        ),
        Ok(_) => false,
    }
}

/// Extracts an archive of `count` entries and gives the number of files written.
///
/// The archive and the disk are the caller's: `read` gives what is known of the
/// entry with a given index, `locate` finds out where an entry would land, and
/// `write` creates the directory or writes the file of an entry as it is told. The
/// entries are taken in order. Each is decided on as `entry_action` says, and
/// `write` is called for each that creates something on disk; the first entry that
/// is rejected ends the extraction with its error, and so does the first failure of
/// `read` or `write`. Nothing is asked of `locate` for an entry that cannot be
/// written anyway.
pub fn extract_zip<R, L, W>(count: usize, read: R, locate: L, write: W) -> (r: Result<
    usize,
    GaggleError,
>) where
    R: Fn(usize) -> Result<EntryInfo, GaggleError>,
    L: Fn(&EntryInfo) -> ParentCheck,
    W: Fn(usize, &EntryInfo, &EntryAction) -> Result<(), GaggleError>,

    requires
        forall|i: usize| read.requires((i,)),
        forall|info: &EntryInfo| locate.requires((info,)),
        forall|i: usize, info: &EntryInfo, action: &EntryAction| write.requires((i, info, action)),
    ensures
        exists|seen: Seq<Observed>|
            {
                &&& seen.len() <= count
                &&& forall|i: int|
                    0 <= i < seen.len() ==> read.ensures(
                        (i as usize,),
                        Ok(#[trigger] seen[i].info),
                    )
                &&& forall|i: int|
                    0 <= i < seen.len() && seen[i].info.needs_parent() ==> locate.ensures(
                        (&seen[i].info,),
                        #[trigger] seen[i].parent,
                    )
                &&& extraction_actions(seen).len() == seen.len()
                &&& match r {
                    Ok(files) => seen.len() == count && extraction_outcome(seen) == Ok::<
                        nat,
                        ExtractFault,
                    >(files as nat) && written(write, seen, seen.len() as int),
                    Err(e) => {
                        ||| (reports_rejection(seen, e) && written(write, seen, seen.len() - 1))
                        ||| (seen.len() < count && extraction_outcome(seen) is Ok && read.ensures(
                            (seen.len() as usize,),
                            Err(e),
                        ) && written(write, seen, seen.len() as int))
                        ||| (seen.len() > 0 && extraction_outcome(seen) is Ok
                            && extraction_actions(seen).last().writes() && write.ensures(
                            (
                                (seen.len() - 1) as usize,
                                &seen.last().info,
                                &extraction_actions(seen).last(),
                            ),
                            Err(e),
                        ) && written(write, seen, seen.len() - 1))
                    },
                }
            },
{
    let mut extractor = Extractor::new();
    let ghost mut seen: Seq<Observed> = Seq::empty();
    let mut i: usize = 0;
    while i < count
        invariant
            i <= count,
            seen.len() == i,
            extractor.wf(),
            extractor.files() <= i,
            progress_from(0, 0, seen) == Ok::<(nat, nat), ExtractFault>(
                (extractor.total(), extractor.files()),
            ),
            forall|k: usize| read.requires((k,)),
            forall|info: &EntryInfo| locate.requires((info,)),
            forall|k: usize, info: &EntryInfo, action: &EntryAction|
                write.requires((k, info, action)),
            forall|k: int|
                0 <= k < seen.len() ==> read.ensures((k as usize,), Ok(#[trigger] seen[k].info)),
            forall|k: int|
                0 <= k < seen.len() && seen[k].info.needs_parent() ==> locate.ensures(
                    (&seen[k].info,),
                    #[trigger] seen[k].parent,
                ),
            extraction_actions(seen).len() == seen.len(),
            written(write, seen, seen.len() as int),
        decreases count - i,
    {
        proof {
            lemma_outcome_is_progress(0, 0, seen);
        }
        let info = match read(i) {
            Ok(info) => info,
            Err(e) => {
                return Err(e);
            },
        };
        let parent = if info.needs_parent_check() {
            locate(&info)
        } else {
            ParentCheck::Inside
        };
        let ghost next = Observed { info, parent };
        let ghost before = seen;
        proof {
            lemma_progress_push(0, 0, before, next);
            lemma_actions_push(0, 0, before, next);
            seen = before.push(next);
            lemma_outcome_is_progress(0, 0, seen);
            assert(seen.last() == next);
            assert(extraction_actions(seen).len() == seen.len());
            assert(written(write, seen, seen.len() - 1)) by {
                assert forall|k: int|
                    0 <= k < seen.len() - 1 && k < extraction_actions(seen).len() && (
                    #[trigger] extraction_actions(seen)[k]).writes() implies write.ensures(
                    (k as usize, &seen[k].info, &extraction_actions(seen)[k]),
                    Ok(()),
                ) by {
                    assert(seen[k] == before[k]);
                    assert(extraction_actions(seen)[k] == extraction_actions(before)[k]);
                }
            }
            assert forall|k: int| 0 <= k < seen.len() implies read.ensures(
                (k as usize,),
                Ok(#[trigger] seen[k].info),
            ) by {
                if k < before.len() {
                    assert(seen[k] == before[k]);
                }
            }
            assert forall|k: int|
                0 <= k < seen.len() && seen[k].info.needs_parent() implies locate.ensures(
                (&seen[k].info,),
                #[trigger] seen[k].parent,
            ) by {
                if k < before.len() {
                    assert(seen[k] == before[k]);
                }
            }
        }
        let action = extractor.step(&info, parent);
        assert(extraction_actions(seen).last() == action);
        match action {
            EntryAction::Skip => {},
            EntryAction::Reject(fault) => {
                return Err(extract_error(fault, &info));
            },
            action => {
                assert(action.writes());
                let outcome = write(i, &info, &action);
                assert(write.ensures((i, &info, &action), outcome));
                match outcome {
                    Ok(done) => {
                        assert(outcome == Ok::<(), GaggleError>(()));
                    },
                    Err(e) => {
                        return Err(e);
                    },
                }
            },
        }
        assert(written(write, seen, seen.len() - 1));
        assert(written(write, seen, seen.len() as int)) by {
            assert forall|k: int|
                0 <= k < seen.len() && k < extraction_actions(seen).len() && (
                #[trigger] extraction_actions(seen)[k]).writes() implies write.ensures(
                (k as usize, &seen[k].info, &extraction_actions(seen)[k]),
                Ok(()),
            ) by {
                if k == seen.len() - 1 {
                    assert(seen[k] == next);
                    assert(extraction_actions(seen)[k] == action);
                    assert(k as usize == i);
                } else {
                    assert(written(write, seen, seen.len() - 1));
                }
            }
        }
        i += 1;
    }
    proof {
        lemma_outcome_is_progress(0, 0, seen);
    }
    Ok(extractor.files_extracted())
}

} // verus!

//! What the remote service says about a dataset: its version, its files, and for how
//! long an answer is served from memory.

use crate::download::DatasetFile;
use crate::error::GaggleError;
use crate::json::{
    as_elements, as_signed, as_text, json_document, json_elements, json_members, member,
    member_signed, member_text, member_unsigned, parse, signed_member, text_member,
    unsigned_member,
};
use crate::ondemand::{percent_encoded, url_encode};
use crate::reference::{fault_detail, name_part, owner_part, parse_dataset_path, reference_fault};
use crate::text::{opt_text, signed_decimal_string, signed_decimal_text};
use vstd::prelude::*;
use vstd::string::StringExecFns;

verus! {

/// A dataset as the remote service describes it.
#[derive(Debug, Clone, PartialEq, Eq)]
pub struct DatasetInfo {
    /// The reference of the dataset, `owner/dataset`.
    pub ref_path: String,
    /// The title of the dataset.
    pub title: String,
    /// The size of the dataset in bytes.
    pub size: u64,
    /// The address of the dataset.
    pub url: String,
    /// When the dataset was last updated.
    pub last_updated: String,
}

/// The version that stands for "not known".
pub const UNKNOWN_VERSION: &'static str = "unknown";

/// What a metadata document says about the version of a dataset.
#[derive(Debug, Clone, PartialEq, Eq)]
pub struct VersionFields {
    /// `currentVersionNumber`, where it is an integer.
    pub current_number: Option<i64>,
    /// `currentVersionNumber`, where it is a text.
    pub current_text: Option<String>,
    /// `versionNumber` of the first element of `versions`, where it is an integer.
    pub first_listed_number: Option<i64>,
}

/// The current version that a metadata document gives: the current version number,
/// as an integer or else as a text; failing that, the number of the first version
/// listed; failing that, `1`.
pub open spec fn current_version_of(fields: VersionFields) -> Seq<char> {
    match fields.current_number {
        Some(n) => signed_decimal_text(n as int),
        None => match fields.current_text {
            Some(t) => t@,
            None => match fields.first_listed_number {
                Some(n) => signed_decimal_text(n as int),
                None => "1"@,
            },
        },
    }
}

/// The current version of a dataset according to its metadata document.
pub fn get_current_version(fields: &VersionFields) -> (r: String)
    ensures
        r@ == current_version_of(*fields),
{
    if let Some(n) = fields.current_number {
        return signed_decimal_string(n);
    }
    if let Some(t) = &fields.current_text {
        return t.clone();
    }
    if let Some(n) = fields.first_listed_number {
        return signed_decimal_string(n);
    }
    String::from_str("1")
}

/// The current version as far as it is known offline: the version that the marker of
/// the cached entry records, or `unknown`.
pub fn offline_version(marker_version: Option<String>) -> (r: String)
    ensures
        r@ == match marker_version {
            Some(v) => v@,
            None => UNKNOWN_VERSION@,
        },
{
    match marker_version {
        Some(v) => v,
        None => String::from_str(UNKNOWN_VERSION),
    }
}

/// Whether a cached version is the latest: the latest is known and is the cached one.
pub open spec fn is_current_version(cached: Option<Seq<char>>, latest: Seq<char>) -> bool {
    latest != UNKNOWN_VERSION@ && cached == Some(latest)
}

/// Whether the cached entry holds the latest version. An entry of unknown version is
/// not current, and nothing is current while the latest version is not known.
pub fn version_is_current(cached: &Option<String>, latest: &String) -> (r: bool)
    ensures
        r == is_current_version(
            match *cached {
                Some(v) => Some(v@),
                None => None,
            },
            latest@,
        ),
{
    let unknown = String::from_str(UNKNOWN_VERSION);
    if *latest == unknown {
        return false;
    }
    match cached {
        Some(v) => *v == *latest,
        None => false,
    }
}

/// A file as a metadata document lists it.
#[derive(Debug, Clone, PartialEq, Eq)]
pub struct RemoteFile {
    /// `name`, where it is a text.
    pub name: Option<String>,
    /// `totalBytes`, where it is an unsigned integer.
    pub total_bytes: Option<u64>,
    /// `size`, where it is an unsigned integer.
    pub size: Option<u64>,
}

/// The size that a listed file is taken to have: `totalBytes`, else `size`, else 0.
pub open spec fn listed_size(file: RemoteFile) -> u64 {
    match file.total_bytes {
        Some(n) => n,
        None => match file.size {
            Some(n) => n,
            None => 0,
        },
    }
}

/// Names and sizes of the listed files that have a name, in the order of the listing.
pub open spec fn named_files(files: Seq<RemoteFile>) -> Seq<(Seq<char>, u64)>
    decreases files.len(),
{
    if files.len() == 0 {
        Seq::empty()
    } else {
        let rest = named_files(files.drop_last());
        match files.last().name {
            Some(name) => rest.push((name@, listed_size(files.last()))),
            None => rest,
        }
    }
}

/// Names and sizes of dataset files.
pub open spec fn file_pairs(files: Seq<DatasetFile>) -> Seq<(Seq<char>, u64)> {
    files.map_values(|f: DatasetFile| (f.name@, f.size))
}

/// The files of a dataset according to the `files` of its metadata document: every
/// element that has a name, with its size.
pub fn list_dataset_files_from_metadata(files: &Vec<RemoteFile>) -> (r: Vec<DatasetFile>)
    ensures
        file_pairs(r@) == named_files(files@),
{
    let mut out: Vec<DatasetFile> = Vec::new();
    let mut i: usize = 0;
    proof {
        assert(file_pairs(out@) =~= named_files(files@.take(0)));
    }
    while i < files.len()
        invariant
            i <= files@.len(),
            file_pairs(out@) == named_files(files@.take(i as int)),
        decreases files@.len() - i,
    {
        let file = &files[i];
        proof {
            assert(files@.take(i + 1).drop_last() =~= files@.take(i as int));
            assert(files@.take(i + 1).last() == files@[i as int]);
        }
        if let Some(name) = &file.name {
            let size = match file.total_bytes {
                Some(n) => n,
                None => match file.size {
                    Some(n) => n,
                    None => 0,
                },
            };
            let ghost before = out@;
            out.push(DatasetFile { name: name.clone(), size });
            proof {
                assert(file_pairs(out@) =~= file_pairs(before).push((name@, size)));
            }
        }
        i += 1;
    }
    proof {
        assert(files@.take(i as int) =~= files@);
    }
    out
}

/// A directory entry of a cached dataset.
#[derive(Debug, Clone, PartialEq, Eq)]
pub struct LocalEntry {
    /// The name of the entry.
    pub name: String,
    /// Whether the entry is a regular file.
    pub is_file: bool,
    /// The size of the entry in bytes.
    pub size: u64,
}

/// Whether a directory entry is a file of the dataset: a regular file other than the
/// marker.
pub open spec fn is_dataset_file(entry: LocalEntry) -> bool {
    entry.is_file && entry.name@ != ".downloaded"@
}

/// Names and sizes of the directory entries that are files of the dataset, in order.
pub open spec fn local_files(entries: Seq<LocalEntry>) -> Seq<(Seq<char>, u64)>
    decreases entries.len(),
{
    if entries.len() == 0 {
        Seq::empty()
    } else {
        let rest = local_files(entries.drop_last());
        if is_dataset_file(entries.last()) {
            rest.push((entries.last().name@, entries.last().size))
        } else {
            rest
        }
    }
}

/// The files of a cached dataset, from the entries of its directory: the regular
/// files, without the marker.
pub fn list_dataset_files(entries: &Vec<LocalEntry>) -> (r: Vec<DatasetFile>)
    ensures
        file_pairs(r@) == local_files(entries@),
{
    let marker = String::from_str(".downloaded");
    let mut out: Vec<DatasetFile> = Vec::new();
    let mut i: usize = 0;
    proof {
        assert(file_pairs(out@) =~= local_files(entries@.take(0)));
    }
    while i < entries.len()
        invariant
            i <= entries@.len(),
            marker@ == ".downloaded"@,
            file_pairs(out@) == local_files(entries@.take(i as int)),
        decreases entries@.len() - i,
    {
        let entry = &entries[i];
        proof {
            assert(entries@.take(i + 1).drop_last() =~= entries@.take(i as int));
            assert(entries@.take(i + 1).last() == entries@[i as int]);
        }
        if entry.is_file && entry.name != marker {
            let ghost before = out@;
            out.push(DatasetFile { name: entry.name.clone(), size: entry.size });
            proof {
                assert(file_pairs(out@) =~= file_pairs(before).push((entry.name@, entry.size)));
            }
        }
        i += 1;
    }
    proof {
        assert(entries@.take(i as int) =~= entries@);
    }
    out
}

/// Where the listing of a dataset comes from.
#[derive(Debug, Clone, Copy, PartialEq, Eq, Structural)]
pub enum ListingSource {
    /// The directory of the cached dataset.
    Local,
    /// The metadata of the remote service; the download if that gives nothing.
    RemoteThenDownload,
    /// The directory of the dataset once it is downloaded.
    Download,
}

/// Where to take the listing of a dataset from: the cache where the dataset's
/// directory exists, else the remote metadata unless offline, else a download.
pub fn listing_source(directory_exists: bool, offline: bool) -> (r: ListingSource)
    ensures
        r == if directory_exists {
            ListingSource::Local
        } else if offline {
            ListingSource::Download
        } else {
            ListingSource::RemoteThenDownload
        },
{
    if directory_exists {
        ListingSource::Local
    } else if offline {
        ListingSource::Download
    } else {
        ListingSource::RemoteThenDownload
    }
}

/// Whether a listing from the remote metadata is used: it was obtained and is not
/// empty. Otherwise the dataset is downloaded and listed from disk.
pub fn remote_listing_is_usable(listing: &Option<Vec<DatasetFile>>) -> (r: bool)
    ensures
        r == (*listing matches Some(files) && files@.len() > 0),
{
    match listing {
        Some(files) => files.len() > 0,
        None => false,
    }
}

/// Whether an answer that is `elapsed_ms` milliseconds old is still served from
/// memory, with a time to live of `ttl_secs` seconds.
pub fn metadata_is_fresh(elapsed_ms: u64, ttl_secs: u64) -> (r: bool)
    ensures
        r == (elapsed_ms < ttl_secs * 1000),
{
    elapsed_ms / 1000 < ttl_secs
}

/// Address of the metadata of a dataset below `api_base`.
pub open spec fn metadata_url_text(api_base: Seq<char>, owner: Seq<char>, dataset: Seq<char>)
    -> Seq<char> {
    api_base + "/datasets/view/"@ + owner + "/"@ + dataset
}

/// Plans the request for the metadata of the dataset `dataset_path`: the address to
/// ask, or the error for a malformed reference.
pub fn get_dataset_metadata(dataset_path: &str, api_base: &str) -> (r: Result<String, GaggleError>)
    ensures
        match reference_fault(dataset_path@) {
            Some(f) => r matches Err(GaggleError::InvalidDatasetPath(m)) && m@ == fault_detail(
                f,
                dataset_path@,
            ),
            None => r matches Ok(url) && url@ == metadata_url_text(
                api_base@,
                owner_part(dataset_path@),
                name_part(dataset_path@),
            ),
        },
{
    match parse_dataset_path(dataset_path) {
        Ok((owner, dataset)) => Ok(
            String::from_str(api_base).concat("/datasets/view/").concat(owner.as_str()).concat(
                "/",
            ).concat(dataset.as_str()),
        ),
        Err(e) => Err(e),
    }
}

/// The detail of the error for a search that asks for a page that does not exist.
pub open spec fn search_fault_detail(page: i32, page_size: i32) -> Seq<char> {
    if page < 1 {
        "Page number must be >= 1, got: "@ + signed_decimal_text(page as int)
    } else {
        "Page size must be between 1 and 100, got: "@ + signed_decimal_text(page_size as int)
    }
}

/// Address of a search below `api_base`.
pub open spec fn search_url_text(api_base: Seq<char>, query: Seq<char>, page: i32, page_size: i32)
    -> Seq<char> {
    api_base + "/datasets/list?search="@ + percent_encoded(query) + "&page="@
        + signed_decimal_text(page as int) + "&pageSize="@ + signed_decimal_text(page_size as int)
}

/// Plans a search for datasets: the address to ask for page `page` of the results
/// for `query`, `page_size` to the page. Pages are counted from 1 and hold 1 to 100
/// results.
pub fn search_datasets(api_base: &str, query: &str, page: i32, page_size: i32) -> (r: Result<
    String,
    GaggleError,
>)
    ensures
        page >= 1 && 1 <= page_size <= 100 ==> (r matches Ok(url) && url@ == search_url_text(
            api_base@,
            query@,
            page,
            page_size,
        )),
        !(page >= 1 && 1 <= page_size <= 100) ==> (r matches Err(
            GaggleError::InvalidDatasetPath(m),
        ) && m@ == search_fault_detail(page, page_size)),
{
    if page < 1 {
        let shown = signed_decimal_string(page as i64);
        return Err(
            GaggleError::InvalidDatasetPath(
                String::from_str("Page number must be >= 1, got: ").concat(shown.as_str()),
            ),
        );
    }
    if page_size < 1 || page_size > 100 {
        let shown = signed_decimal_string(page_size as i64);
        return Err(
            GaggleError::InvalidDatasetPath(
                String::from_str("Page size must be between 1 and 100, got: ").concat(
                    shown.as_str(),
                ),
            ),
        );
    }
    let encoded = url_encode(query);
    let page_text = signed_decimal_string(page as i64);
    let size_text = signed_decimal_string(page_size as i64);
    Ok(
        String::from_str(api_base).concat("/datasets/list?search=").concat(
            encoded.as_str(),
        ).concat("&page=").concat(page_text.as_str()).concat("&pageSize=").concat(
            size_text.as_str(),
        ),
    )
}


/// What `serde_json` finds in a metadata document about the version of the dataset:
/// under `currentVersionNumber` a signed integer and a text, and a signed integer
/// under `versionNumber` in the first element of the list under `versions`.
pub open spec fn version_fields_of(metadata: serde_json::Value) -> (
    Option<i64>,
    Option<Seq<char>>,
    Option<i64>,
) {
    let members = json_members(metadata);
    let first_listed = if members.contains_key("versions"@) {
        match json_elements(members["versions"@]) {
            Some(listed) => if listed.len() > 0 {
                signed_member(listed[0], "versionNumber"@)
            } else {
                None
            },
            None => None,
        }
    } else {
        None
    };
    (
        signed_member(metadata, "currentVersionNumber"@),
        text_member(metadata, "currentVersionNumber"@),
        first_listed,
    )
}

impl VersionFields {
    /// The three fields, the text by its characters.
    pub open spec fn facts(self) -> (Option<i64>, Option<Seq<char>>, Option<i64>) {
        (self.current_number, opt_text(self.current_text), self.first_listed_number)
    }
}

/// What a metadata document says about the version of the dataset: the member
/// `currentVersionNumber`, and the member `versionNumber` of the first element of
/// `versions`. What `serde_json` finds there is handed on as it is.
pub fn version_fields(metadata: &serde_json::Value) -> (r: VersionFields)
    ensures
        r.facts() == version_fields_of(*metadata),
{
    let mut current_number: Option<i64> = None;
    let mut current_text: Option<String> = None;
    if let Some(current) = member(metadata, "currentVersionNumber") {
        current_number = as_signed(current);
        current_text = as_text(current);
    }
    let mut first_listed_number: Option<i64> = None;
    if let Some(versions) = member(metadata, "versions") {
        if let Some(listed) = as_elements(versions) {
            if listed.len() > 0 {
                first_listed_number = member_signed(&listed[0], "versionNumber");
            }
        }
    }
    VersionFields { current_number, current_text, first_listed_number }
}

impl RemoteFile {
    /// The three fields, the name by its characters.
    pub open spec fn facts(self) -> (Option<Seq<char>>, Option<u64>, Option<u64>) {
        (opt_text(self.name), self.total_bytes, self.size)
    }
}

/// What `serde_json` finds of a file in an element of a list of files: a text under
/// `name`, and unsigned integers under `totalBytes` and `size`.
pub open spec fn remote_file_of(file: serde_json::Value) -> (
    Option<Seq<char>>,
    Option<u64>,
    Option<u64>,
) {
    (
        text_member(file, "name"@),
        unsigned_member(file, "totalBytes"@),
        unsigned_member(file, "size"@),
    )
}

/// What `serde_json` finds of the files in a metadata document: one for each element
/// of the list under `files`, in order; none where there is no such list.
pub open spec fn remote_files_of(metadata: serde_json::Value) -> Seq<
    (Option<Seq<char>>, Option<u64>, Option<u64>),
> {
    if json_members(metadata).contains_key("files"@) {
        match json_elements(json_members(metadata)["files"@]) {
            Some(listed) => listed.map_values(|file: serde_json::Value| remote_file_of(file)),
            None => Seq::empty(),
        }
    } else {
        Seq::empty()
    }
}

/// The fields of each of `files`, in order.
pub open spec fn remote_file_facts(files: Seq<RemoteFile>) -> Seq<
    (Option<Seq<char>>, Option<u64>, Option<u64>),
> {
    files.map_values(|file: RemoteFile| file.facts())
}

/// The files that a metadata document lists under `files`: of each element the
/// members `name`, `totalBytes` and `size`. Nothing for a document without such a
/// list.
pub fn remote_files(metadata: &serde_json::Value) -> (r: Vec<RemoteFile>)
    ensures
        remote_file_facts(r@) == remote_files_of(*metadata),
{
    let mut out: Vec<RemoteFile> = Vec::new();
    if let Some(files) = member(metadata, "files") {
        if let Some(listed) = as_elements(files) {
            let mut i: usize = 0;
            while i < listed.len()
                invariant
                    i <= listed@.len(),
                    out@.len() == i,
                    forall|j: int|
                        0 <= j < i ==> (#[trigger] out@[j]).facts() == remote_file_of(listed@[j]),
                decreases listed@.len() - i,
            {
                let file = &listed[i];
                out.push(
                    RemoteFile {
                        name: member_text(file, "name"),
                        total_bytes: member_unsigned(file, "totalBytes"),
                        size: member_unsigned(file, "size"),
                    },
                );
                i += 1;
            }
            proof {
                assert(remote_file_facts(out@) =~= listed@.map_values(
                    |file: serde_json::Value| remote_file_of(file),
                ));
            }
            return out;
        }
    }
    proof {
        assert(remote_file_facts(out@) =~= Seq::empty());
    }
    out
}

/// The version that the content of a marker records: none for an empty marker and
/// for one that is no JSON, and otherwise the text that `serde_json` finds under
/// `version`, if it finds one.
pub open spec fn marker_version_of(content: Seq<char>) -> Option<Seq<char>> {
    if content.len() == 0 {
        None
    } else {
        match json_document(content) {
            Some(document) => text_member(document, "version"@),
            None => None,
        }
    }
}

/// The version that the content of a marker records under `version`; `None` for an
/// empty marker, for one that is no JSON, and for one without such a text.
pub fn marker_version(content: &str) -> (r: Option<String>)
    ensures
        opt_text(r) == marker_version_of(content@),
{
    if content.is_empty() {
        return None;
    }
    match parse(content) {
        Ok(document) => member_text(&document, "version"),
        Err(_) => None,
    }
}

/// What is asked of the remote service about datasets.
#[derive(Debug, Clone, Copy, PartialEq, Eq, Structural)]
pub enum RemoteRequest {
    /// The metadata of one dataset.
    Metadata,
    /// A search among all datasets.
    Search,
}

/// The detail of the error for a request that is not made because the network is off
/// limits.
pub open spec fn offline_request_detail(request: RemoteRequest, dataset_path: Seq<char>) -> Seq<
    char,
> {
    match request {
        RemoteRequest::Metadata => "Offline mode enabled; metadata fetch for '"@ + dataset_path
            + "' is disabled. Unset GAGGLE_OFFLINE to enable network."@,
        RemoteRequest::Search =>
            "Offline mode enabled; search is disabled. Unset GAGGLE_OFFLINE to enable network."@,
    }
}

/// The error for a request that is not made because the network is off limits.
/// `dataset_path` is the dataset that the metadata is about; a search shows none.
pub fn offline_request_error(request: RemoteRequest, dataset_path: &str) -> (e: GaggleError)
    ensures
        e matches GaggleError::HttpRequestError(m) && m@ == offline_request_detail(
            request,
            dataset_path@,
        ),
{
    match request {
        RemoteRequest::Metadata => GaggleError::HttpRequestError(
            String::from_str("Offline mode enabled; metadata fetch for '").concat(
                dataset_path,
            ).concat("' is disabled. Unset GAGGLE_OFFLINE to enable network."),
        ),
        RemoteRequest::Search => GaggleError::HttpRequestError(
            String::from_str(
                "Offline mode enabled; search is disabled. Unset GAGGLE_OFFLINE to enable network.",
            ),
        ),
    }
}

/// The detail of the error for a request that was answered with a status that is no
/// success.
pub open spec fn failed_request_detail(request: RemoteRequest, status: Seq<char>) -> Seq<char> {
    match request {
        RemoteRequest::Metadata => "Failed to get dataset metadata: HTTP "@ + status,
        RemoteRequest::Search => "Failed to search datasets: HTTP "@ + status,
    }
}

/// The error for a request that was answered with the status `status`, which is no
/// success.
pub fn failed_request_error(request: RemoteRequest, status: &str) -> (e: GaggleError)
    ensures
        e matches GaggleError::HttpRequestError(m) && m@ == failed_request_detail(request, status@),
{
    match request {
        RemoteRequest::Metadata => GaggleError::HttpRequestError(
            String::from_str("Failed to get dataset metadata: HTTP ").concat(status),
        ),
        RemoteRequest::Search => GaggleError::HttpRequestError(
            String::from_str("Failed to search datasets: HTTP ").concat(status),
        ),
    }
}

} // verus!

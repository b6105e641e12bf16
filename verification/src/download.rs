//! Materialising a dataset locally: where it is kept, what is asked of the remote
//! service, who may download, and the steps of one download.

use crate::cache::{bytes_to_mb, measured_mb, CacheMetadata};
use crate::error::GaggleError;
use crate::reference::{
    base_part, fault_detail, lemma_parsed_reference_is_sound, name_part, owner_part,
    parse_dataset_path_with_version, pinned_version, reference_fault, versioned_fault,
};
use crate::text::opt_text;
use crate::utils::{join_path, joined};
use vstd::hash_map::StringHashMap;
use vstd::prelude::*;
use vstd::string::StringExecFns;

verus! {

/// Name of the marker file that signals a complete cache entry.
pub const MARKER_FILE_NAME: &'static str = ".downloaded";

/// Name of the directory, below the cache root, that holds all entries.
pub const DATASETS_DIR_NAME: &'static str = "datasets";

/// Name of the temporary archive inside an entry while it is downloaded.
pub const ARCHIVE_FILE_NAME: &'static str = "dataset.zip";

/// A file of a dataset, by name and size in bytes.
#[derive(Debug, Clone, PartialEq, Eq)]
pub struct DatasetFile {
    /// The name of the file.
    pub name: String,
    /// The size of the file in bytes.
    pub size: u64,
}

/// Directory name of a cache entry: the dataset's name, followed by `-v` and the version
/// where one is pinned.
pub open spec fn subdir_text(dataset: Seq<char>, version: Option<Seq<char>>) -> Seq<char> {
    match version {
        Some(v) => dataset + "-v"@ + v,
        None => dataset,
    }
}

/// Key under which a download is locked: owner, `/`, and the entry's directory name.
pub open spec fn lock_key_text(
    owner: Seq<char>,
    dataset: Seq<char>,
    version: Option<Seq<char>>,
) -> Seq<char> {
    owner + "/"@ + subdir_text(dataset, version)
}

/// Address of a dataset's archive below `api_base`, with a `/versions/` suffix where a
/// version is pinned.
pub open spec fn download_url_text(
    api_base: Seq<char>,
    owner: Seq<char>,
    dataset: Seq<char>,
    version: Option<Seq<char>>,
) -> Seq<char> {
    let latest = api_base + "/datasets/download/"@ + owner + "/"@ + dataset;
    match version {
        Some(v) => latest + "/versions/"@ + v,
        None => latest,
    }
}

/// Directory name of the cache entry for `dataset`, pinned to `version` or not.
pub fn cache_subdir(dataset: &str, version: &Option<String>) -> (r: String)
    ensures
        r@ == subdir_text(dataset@, opt_text(*version)),
{
    match version {
        Some(v) => String::from_str(dataset).concat("-v").concat(v.as_str()),
        None => String::from_str(dataset),
    }
}

/// Key under which the download of a dataset is locked.
pub fn lock_key(owner: &str, dataset: &str, version: &Option<String>) -> (r: String)
    ensures
        r@ == lock_key_text(owner@, dataset@, opt_text(*version)),
{
    let subdir = cache_subdir(dataset, version);
    String::from_str(owner).concat("/").concat(subdir.as_str())
}

/// Address from which the archive of a dataset is fetched.
pub fn download_url(api_base: &str, owner: &str, dataset: &str, version: &Option<String>) -> (r:
    String)
    ensures
        r@ == download_url_text(api_base@, owner@, dataset@, opt_text(*version)),
{
    let latest = String::from_str(api_base).concat("/datasets/download/").concat(owner).concat(
        "/",
    ).concat(dataset);
    match version {
        Some(v) => latest.concat("/versions/").concat(v.as_str()),
        None => latest,
    }
}

/// What one download works with: the parsed reference and every name derived from it.
#[derive(Debug, Clone, PartialEq, Eq)]
pub struct DownloadPlan {
    /// Owner of the dataset.
    pub owner: String,
    /// Name of the dataset.
    pub dataset: String,
    /// Version that the reference pins, if any.
    pub version: Option<String>,
    /// The reference without version: `owner/dataset`.
    pub base_path: String,
    /// Directory of the entry below `datasets/{owner}`.
    pub cache_subdir: String,
    /// Key that guards the download.
    pub lock_key: String,
    /// Address of the archive.
    pub url: String,
}

impl DownloadPlan {
    /// Whether the plan is the one that belongs to `owner`, `dataset` and `version` below
    /// `api_base`.
    pub open spec fn is_for(
        self,
        api_base: Seq<char>,
        owner: Seq<char>,
        dataset: Seq<char>,
        version: Option<Seq<char>>,
    ) -> bool {
        &&& self.owner@ == owner
        &&& self.dataset@ == dataset
        &&& opt_text(self.version) == version
        &&& self.base_path@ == owner + "/"@ + dataset
        &&& self.cache_subdir@ == subdir_text(dataset, version)
        &&& self.lock_key@ == lock_key_text(owner, dataset, version)
        &&& self.url@ == download_url_text(api_base, owner, dataset, version)
    }
}

/// Plans the download of the dataset that `dataset_path` refers to, with the remote
/// service at `api_base`.
///
/// Accepts `owner/dataset`, `owner/dataset@v2`, `owner/dataset@2` and
/// `owner/dataset@latest`. A malformed reference is rejected before anything else
/// happens. The reference without version that the plan holds is itself a reference
/// to the same dataset.
pub fn download_dataset(dataset_path: &str, api_base: &str) -> (r: Result<
    DownloadPlan,
    GaggleError,
>)
    ensures
        match versioned_fault(dataset_path@) {
            None => r matches Ok(plan) && plan.is_for(
                api_base@,
                owner_part(base_part(dataset_path@)),
                name_part(base_part(dataset_path@)),
                pinned_version(dataset_path@),
            ),
            Some((f, shown)) => r matches Err(GaggleError::InvalidDatasetPath(m)) && m@
                == fault_detail(f, shown),
        },
        r matches Ok(plan) ==> {
            &&& reference_fault(plan.base_path@) is None
            &&& owner_part(plan.base_path@) == plan.owner@
            &&& name_part(plan.base_path@) == plan.dataset@
        },
{
    match parse_dataset_path_with_version(dataset_path) {
        Ok((owner, dataset, version)) => {
            let base_path = String::from_str(owner.as_str()).concat("/").concat(dataset.as_str());
            proof {
                reveal_strlit("/");
                assert("/"@ =~= seq!['/']);
                lemma_parsed_reference_is_sound(base_part(dataset_path@));
            }
            let cache_subdir = cache_subdir(dataset.as_str(), &version);
            let lock_key = lock_key(owner.as_str(), dataset.as_str(), &version);
            let url = download_url(api_base, owner.as_str(), dataset.as_str(), &version);
            Ok(DownloadPlan { owner, dataset, version, base_path, cache_subdir, lock_key, url })
        },
        Err(e) => Err(e),
    }
}

/// The downloads that are in flight, by key. At most one caller holds a key at a time.
pub struct LockTable {
    keys: StringHashMap<()>,
}

impl LockTable {
    /// The keys that are held.
    pub closed spec fn held(&self) -> Set<Seq<char>> {
        self.keys@.dom()
    }

    /// A table in which nothing is held.
    pub fn new() -> (r: LockTable)
        ensures
            r.held() == Set::<Seq<char>>::empty(),
    {
        let r = LockTable { keys: StringHashMap::new() };
        assert(r.held() =~= Set::<Seq<char>>::empty());
        r
    }

    /// Whether `key` is held.
    pub fn contains(&self, key: &str) -> (r: bool)
        ensures
            r == self.held().contains(key@),
    {
        self.keys.contains_key(key)
    }

    /// Takes `key` unless it is held already, and tells whether it was taken.
    pub fn try_acquire(&mut self, key: &str) -> (r: bool)
        ensures
            r == !old(self).held().contains(key@),
            final(self).held() == old(self).held().insert(key@),
    {
        if self.keys.contains_key(key) {
            assert(self.held() =~= self.held().insert(key@));
            false
        } else {
            self.keys.insert(String::from_str(key), ());
            assert(self.held() =~= old(self).held().insert(key@));
            true
        }
    }

    /// Gives `key` up. A key that is not held is left alone.
    pub fn release(&mut self, key: &str)
        ensures
            final(self).held() == old(self).held().remove(key@),
    {
        self.keys.remove(key);
        assert(self.held() =~= old(self).held().remove(key@));
    }
}

/// Directory of a cache entry: `datasets`, the owner and the entry's name, below the
/// cache root.
pub open spec fn entry_dir_text(cache_root: Seq<char>, owner: Seq<char>, subdir: Seq<char>) -> Seq<
    char,
> {
    joined(joined(joined(cache_root, DATASETS_DIR_NAME@), owner), subdir)
}

/// Directory in which the dataset of `plan` is kept below `cache_root`.
pub fn entry_dir(cache_root: &str, plan: &DownloadPlan) -> (r: String)
    ensures
        r@ == entry_dir_text(cache_root@, plan.owner@, plan.cache_subdir@),
{
    let datasets = join_path(cache_root, DATASETS_DIR_NAME);
    let owner_dir = join_path(datasets.as_str(), plan.owner.as_str());
    join_path(owner_dir.as_str(), plan.cache_subdir.as_str())
}

/// Path of the marker of the entry in `entry_dir`.
pub fn marker_path(entry_dir: &str) -> (r: String)
    ensures
        r@ == joined(entry_dir@, MARKER_FILE_NAME@),
{
    join_path(entry_dir, MARKER_FILE_NAME)
}

/// Path of the temporary archive of the entry in `entry_dir`.
pub fn archive_path(entry_dir: &str) -> (r: String)
    ensures
        r@ == joined(entry_dir@, ARCHIVE_FILE_NAME@),
{
    join_path(entry_dir, ARCHIVE_FILE_NAME)
}

/// The metadata that the marker of a finished download records: the reference
/// without version, the size of the entry (0 where it could not be measured), the
/// time of completion, and the version: the pinned one, or else the one that the
/// remote service named, if it named any.
pub fn finalize_metadata(
    plan: &DownloadPlan,
    dir_bytes: Option<u64>,
    resolved_version: Option<String>,
    now_secs: u64,
) -> (m: CacheMetadata)
    ensures
        m.downloaded_at_secs == now_secs,
        m.dataset_path@ == plan.base_path@,
        m.size_mb == measured_mb(dir_bytes),
        opt_text(m.version) == match plan.version {
            Some(v) => Some(v@),
            None => opt_text(resolved_version),
        },
{
    let size_mb = match dir_bytes {
        Some(bytes) => bytes_to_mb(bytes),
        None => 0,
    };
    let version = match &plan.version {
        Some(v) => Some(v.clone()),
        None => resolved_version,
    };
    CacheMetadata {
        downloaded_at_secs: now_secs,
        dataset_path: plan.base_path.clone(),
        size_mb,
        version,
    }
}

} // verus!

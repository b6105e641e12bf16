//! What the cache knows about its entries, how much they take up, and which of them
//! leave when the budget is exceeded.

use crate::error::GaggleError;
use vstd::prelude::*;
use vstd::string::StringExecFns;

verus! {

/// Bytes in one megabyte, the unit of all cache sizes.
pub const BYTES_PER_MB: u64 = 1024 * 1024;

/// What the marker of a complete entry records.
#[derive(Debug, Clone, PartialEq, Eq)]
pub struct CacheMetadata {
    /// When the entry was completed, in seconds since the epoch.
    pub downloaded_at_secs: u64,
    /// The reference of the dataset, `owner/dataset`.
    pub dataset_path: String,
    /// Size of the entry in megabytes.
    pub size_mb: u64,
    /// The version that the entry holds, where it is known.
    pub version: Option<String>,
}

impl CacheMetadata {
    /// Metadata of an entry completed at `now_secs`, of unknown version.
    pub fn new(dataset_path: String, size_mb: u64, now_secs: u64) -> (r: CacheMetadata)
        ensures
            r.downloaded_at_secs == now_secs,
            r.dataset_path == dataset_path,
            r.size_mb == size_mb,
            r.version is None,
    {
        CacheMetadata { downloaded_at_secs: now_secs, dataset_path, size_mb, version: None }
    }

    /// Seconds since the entry was completed, as of `now_secs`; 0 for an entry from
    /// the future.
    pub fn age_seconds(&self, now_secs: u64) -> (r: u64)
        ensures
            r == if now_secs >= self.downloaded_at_secs {
                now_secs - self.downloaded_at_secs
            } else {
                0
            },
    {
        if now_secs >= self.downloaded_at_secs {
            now_secs - self.downloaded_at_secs
        } else {
            0
        }
    }
}

/// An entry of the cache as it is accounted for: its metadata, and whether it is
/// complete, that is, has its marker. Only complete entries are ever evicted; an
/// entry without marker may be a download in progress or the files of single
/// fetches, and counts toward the size of the cache all the same.
#[derive(Debug, Clone, PartialEq, Eq)]
pub struct CacheEntry {
    /// The metadata of the entry, recorded or made up.
    pub metadata: CacheMetadata,
    /// Whether the entry has its marker.
    pub complete: bool,
}

/// Whole megabytes in `bytes`.
pub fn bytes_to_mb(bytes: u64) -> (r: u64)
    ensures
        r == bytes / BYTES_PER_MB,
{
    bytes / BYTES_PER_MB
}

/// What was found where the marker of an entry should be.
#[derive(Debug, Clone, PartialEq, Eq)]
pub enum MarkerState {
    /// No marker: the entry is partial.
    Absent,
    /// A marker that could not be read.
    Unreadable,
    /// A marker without content, as older versions wrote it.
    Empty,
    /// A marker whose content is no metadata.
    Invalid,
    /// A marker with metadata.
    Valid(CacheMetadata),
}

/// Whether an entry with this marker counts as complete: the marker is there.
pub open spec fn is_complete(marker: MarkerState) -> bool {
    !(marker is Absent)
}

/// Whether an entry is taken into account: a complete entry always, a partial one if
/// it takes up a megabyte or more.
pub open spec fn is_accounted(marker: MarkerState, dir_bytes: Option<u64>) -> bool {
    is_complete(marker) || measured_mb(dir_bytes) > 0
}

/// Megabytes of a directory that was measured, 0 where measuring failed.
pub open spec fn measured_mb(dir_bytes: Option<u64>) -> u64 {
    match dir_bytes {
        Some(bytes) => bytes / BYTES_PER_MB,
        None => 0,
    }
}

/// Whether `m` is the metadata of the entry of `dataset` by `owner`: the metadata of
/// the marker where it holds some, and otherwise made up of the names of the two
/// directories, the size of what the directory holds, the time `now_secs` and no
/// version.
pub open spec fn describes_entry(
    m: CacheMetadata,
    owner: Seq<char>,
    dataset: Seq<char>,
    marker: MarkerState,
    dir_bytes: Option<u64>,
    now_secs: u64,
) -> bool {
    match marker {
        MarkerState::Valid(recorded) => m == recorded,
        _ => {
            &&& m.downloaded_at_secs == now_secs
            &&& m.dataset_path@ == owner + "/"@ + dataset
            &&& m.size_mb == measured_mb(dir_bytes)
            &&& m.version is None
        },
    }
}

/// The entry under which a directory of the cache is accounted for, if it is.
///
/// A marker with metadata speaks for itself. For any other entry the metadata is made
/// up: the reference from the names of the two directories, the size from what the
/// directory holds (`dir_bytes`, `None` where it could not be measured), the time of
/// completion `now_secs`, and no version. A partial entry of less than a megabyte is
/// left out. The entry is complete exactly if the marker is there.
pub fn account_entry(
    owner: &str,
    dataset: &str,
    marker: MarkerState,
    dir_bytes: Option<u64>,
    now_secs: u64,
) -> (r: Option<CacheEntry>)
    ensures
        r is Some <==> is_accounted(marker, dir_bytes),
        r matches Some(e) ==> e.complete == is_complete(marker) && describes_entry(
            e.metadata,
            owner@,
            dataset@,
            marker,
            dir_bytes,
            now_secs,
        ),
{
    let size_mb = match dir_bytes {
        Some(bytes) => bytes_to_mb(bytes),
        None => 0,
    };
    match marker {
        MarkerState::Valid(m) => Some(CacheEntry { metadata: m, complete: true }),
        MarkerState::Absent => {
            if size_mb > 0 {
                let path = String::from_str(owner).concat("/").concat(dataset);
                Some(
                    CacheEntry {
                        metadata: CacheMetadata::new(path, size_mb, now_secs),
                        complete: false,
                    },
                )
            } else {
                None
            }
        },
        _ => {
            let path = String::from_str(owner).concat("/").concat(dataset);
            Some(
                CacheEntry { metadata: CacheMetadata::new(path, size_mb, now_secs), complete: true },
            )
        },
    }
}

/// The metadata of a complete entry; `None` for an entry without marker.
///
/// A marker with metadata speaks for itself. For a marker that is empty, unreadable
/// or no metadata, the metadata is made up as in `account_entry`, so that entries of
/// older versions and entries damaged by a partial write still count.
pub fn read_entry(
    owner: &str,
    dataset: &str,
    marker: MarkerState,
    dir_bytes: Option<u64>,
    now_secs: u64,
) -> (r: Option<CacheMetadata>)
    ensures
        r is Some <==> is_complete(marker),
        r matches Some(m) ==> describes_entry(m, owner@, dataset@, marker, dir_bytes, now_secs),
{
    match marker {
        MarkerState::Absent => None,
        MarkerState::Valid(m) => Some(m),
        other => match account_entry(owner, dataset, other, dir_bytes, now_secs) {
            Some(entry) => Some(entry.metadata),
            None => None,
        },
    }
}

/// Sum of the sizes of `entries`, complete or not, in megabytes.
pub open spec fn total_mb(entries: Seq<CacheEntry>) -> nat
    decreases entries.len(),
{
    if entries.len() == 0 {
        0
    } else {
        total_mb(entries.drop_last()) + entries.last().metadata.size_mb as nat
    }
}

/// Sum of the sizes of those of `entries` that are complete, in megabytes.
pub open spec fn complete_mb(entries: Seq<CacheEntry>) -> nat
    decreases entries.len(),
{
    if entries.len() == 0 {
        0
    } else if entries.last().complete {
        complete_mb(entries.drop_last()) + entries.last().metadata.size_mb as nat
    } else {
        complete_mb(entries.drop_last())
    }
}

/// The complete entries take up no more than all entries.
pub proof fn lemma_complete_within_total(entries: Seq<CacheEntry>)
    ensures
        complete_mb(entries) <= total_mb(entries),
    decreases entries.len(),
{
    if entries.len() > 0 {
        lemma_complete_within_total(entries.drop_last());
    }
}

/// The total grows with the number of entries.
pub proof fn lemma_total_mb_prefix(entries: Seq<CacheEntry>, k: int)
    requires
        0 <= k <= entries.len(),
    ensures
        total_mb(entries.take(k)) <= total_mb(entries),
    decreases entries.len() - k,
{
    if k == entries.len() {
        assert(entries.take(k) =~= entries);
    } else {
        assert(entries.take(k + 1).drop_last() =~= entries.take(k));
        lemma_total_mb_prefix(entries, k + 1);
    }
}

/// Total size of the cache in megabytes, partial entries included. Fails where the
/// sum does not fit in 64 bits.
pub fn get_total_cache_size_mb(entries: &Vec<CacheEntry>) -> (r: Result<u64, GaggleError>)
    ensures
        total_mb(entries@) <= u64::MAX ==> r == Ok::<u64, GaggleError>(total_mb(entries@) as u64),
        total_mb(entries@) > u64::MAX ==> (r matches Err(GaggleError::IoError(m)) && m@
            == "Total cache size exceeds the representable range"@),
{
    let mut total: u64 = 0;
    let mut i: usize = 0;
    while i < entries.len()
        invariant
            i <= entries@.len(),
            total == total_mb(entries@.take(i as int)),
        decreases entries@.len() - i,
    {
        proof {
            assert(entries@.take(i + 1).drop_last() =~= entries@.take(i as int));
            lemma_total_mb_prefix(entries@, i + 1);
        }
        let size = entries[i].metadata.size_mb;
        if size > u64::MAX - total {
            return Err(
                GaggleError::IoError(
                    String::from_str("Total cache size exceeds the representable range"),
                ),
            );
        }
        total = total + size;
        i += 1;
    }
    proof {
        assert(entries@.take(i as int) =~= entries@);
    }
    Ok(total)
}


/// Whether entry `i` leaves the cache before entry `j`: it is older, or as old and
/// listed first.
pub open spec fn leaves_before(entries: Seq<CacheEntry>, i: int, j: int) -> bool {
    entries[i].metadata.downloaded_at_secs < entries[j].metadata.downloaded_at_secs || (
    entries[i].metadata.downloaded_at_secs == entries[j].metadata.downloaded_at_secs && i < j)
}

/// Whether `i` occurs in `order`.
pub open spec fn lists(order: Seq<usize>, i: int) -> bool {
    exists|p: int| 0 <= p < order.len() && #[trigger] order[p] == i
}

/// Whether `order` lists the positions of the complete ones among `entries`, and of
/// no others, each once, oldest first, and entries of the same age in the order in
/// which they are listed.
pub open spec fn is_eviction_order(entries: Seq<CacheEntry>, order: Seq<usize>) -> bool {
    &&& forall|p: int|
        0 <= p < order.len() ==> (#[trigger] order[p]) < entries.len()
            && entries[order[p] as int].complete
    &&& forall|p: int, q: int|
        0 <= p < q < order.len() ==> leaves_before(
            entries,
            #[trigger] order[p] as int,
            #[trigger] order[q] as int,
        )
    &&& forall|i: int| 0 <= i < entries.len() && entries[i].complete ==> #[trigger] lists(order, i)
}

/// Two eviction orders of the same entries agree in their first `upto` places.
pub proof fn lemma_eviction_order_agrees(
    entries: Seq<CacheEntry>,
    a: Seq<usize>,
    b: Seq<usize>,
    upto: int,
)
    requires
        is_eviction_order(entries, a),
        is_eviction_order(entries, b),
        0 <= upto <= a.len(),
        upto <= b.len(),
    ensures
        forall|q: int| 0 <= q < upto ==> a[q] == b[q],
    decreases upto,
{
    if upto > 0 {
        lemma_eviction_order_agrees(entries, a, b, upto - 1);
        let k = upto - 1;
        let x = a[k];
        let y = b[k];
        assert(lists(b, x as int));
        let in_b = choose|q: int| 0 <= q < b.len() && #[trigger] b[q] == x;
        assert(lists(a, y as int));
        let in_a = choose|q: int| 0 <= q < a.len() && #[trigger] a[q] == y;
        // neither occurs earlier, where the orders agree: no entry leaves before itself
        if in_b < k {
            assert(a[in_b] == b[in_b]);
            assert(leaves_before(entries, a[in_b] as int, a[k] as int));
        }
        if in_a < k {
            assert(a[in_a] == b[in_a]);
            assert(leaves_before(entries, b[in_a] as int, b[k] as int));
        }
        // and not both later: of two entries only one leaves before the other
        if in_b > k && in_a > k {
            assert(leaves_before(entries, b[k] as int, b[in_b] as int));
            assert(leaves_before(entries, a[k] as int, a[in_a] as int));
        }
    }
}

/// An eviction order is no longer than another of the same entries.
pub proof fn lemma_eviction_order_length(entries: Seq<CacheEntry>, a: Seq<usize>, b: Seq<usize>)
    requires
        is_eviction_order(entries, a),
        is_eviction_order(entries, b),
    ensures
        a.len() <= b.len(),
{
    if a.len() > b.len() {
        lemma_eviction_order_agrees(entries, a, b, b.len() as int);
        // the next of `a` is listed in `b`, so `a` would list it twice
        let x = a[b.len() as int];
        assert(lists(b, x as int));
        let in_b = choose|q: int| 0 <= q < b.len() && #[trigger] b[q] == x;
        assert(a[in_b] == b[in_b]);
        assert(leaves_before(entries, a[in_b] as int, a[b.len() as int] as int));
    }
}

/// The order in which entries leave the cache is determined by their ages and
/// positions: there is only one eviction order.
pub proof fn lemma_eviction_order_is_unique(
    entries: Seq<CacheEntry>,
    a: Seq<usize>,
    b: Seq<usize>,
)
    requires
        is_eviction_order(entries, a),
        is_eviction_order(entries, b),
    ensures
        a == b,
{
    lemma_eviction_order_length(entries, a, b);
    lemma_eviction_order_length(entries, b, a);
    lemma_eviction_order_agrees(entries, a, b, a.len() as int);
    assert(a =~= b);
}

/// Sum of `sizes`.
pub open spec fn sum_sizes(sizes: Seq<u64>) -> nat
    decreases sizes.len(),
{
    if sizes.len() == 0 {
        0
    } else {
        sum_sizes(sizes.drop_last()) + sizes.last() as nat
    }
}

/// Inserting a size adds it to the sum.
pub proof fn lemma_sum_insert(sizes: Seq<u64>, at: int, size: u64)
    requires
        0 <= at <= sizes.len(),
    ensures
        sum_sizes(sizes.insert(at, size)) == sum_sizes(sizes) + size,
    decreases sizes.len() - at,
{
    sizes.insert_ensures(at, size);
    let grown = sizes.insert(at, size);
    if at == sizes.len() {
        assert(grown.drop_last() =~= sizes);
    } else {
        assert(grown.drop_last() =~= sizes.drop_last().insert(at, size)) by {
            sizes.drop_last().insert_ensures(at, size);
        }
        assert(grown.last() == sizes.last());
        lemma_sum_insert(sizes.drop_last(), at, size);
    }
}

/// The positions of the complete ones among `entries` in the order in which they
/// leave the cache, and the sizes of those entries in that order.
fn sorted_by_age(entries: &Vec<CacheEntry>) -> (r: (Vec<usize>, Vec<u64>))
    ensures
        is_eviction_order(entries@, r.0@),
        r.1@.len() == r.0@.len(),
        r.0@.len() <= entries@.len(),
        forall|p: int|
            0 <= p < r.0@.len() ==> #[trigger] r.1@[p] == entries@[r.0@[p] as int].metadata.size_mb,
        sum_sizes(r.1@) == complete_mb(entries@),
{
    let mut order: Vec<usize> = Vec::new();
    let mut sizes: Vec<u64> = Vec::new();
    let mut i: usize = 0;
    while i < entries.len()
        invariant
            i <= entries@.len(),
            order@.len() <= i,
            sizes@.len() == order@.len(),
            forall|p: int|
                0 <= p < order@.len() ==> (#[trigger] order@[p]) < i
                    && entries@[order@[p] as int].complete,
            forall|p: int, q: int|
                0 <= p < q < order@.len() ==> leaves_before(
                    entries@,
                    #[trigger] order@[p] as int,
                    #[trigger] order@[q] as int,
                ),
            forall|k: int| 0 <= k < i && entries@[k].complete ==> #[trigger] lists(order@, k),
            forall|p: int|
                0 <= p < order@.len() ==> #[trigger] sizes@[p]
                    == entries@[order@[p] as int].metadata.size_mb,
            sum_sizes(sizes@) == complete_mb(entries@.take(i as int)),
        decreases entries@.len() - i,
    {
        proof {
            assert(entries@.take(i + 1).drop_last() =~= entries@.take(i as int));
            assert(entries@.take(i + 1).last() == entries@[i as int]);
        }
        if entries[i].complete {
            let key = entries[i].metadata.downloaded_at_secs;
            let mut j: usize = order.len();
            while j > 0 && entries[order[j - 1]].metadata.downloaded_at_secs > key
                invariant
                    j <= order@.len(),
                    order@.len() <= i,
                    i < entries@.len(),
                    key == entries@[i as int].metadata.downloaded_at_secs,
                    forall|p: int| 0 <= p < order@.len() ==> (#[trigger] order@[p]) < i,
                    forall|p: int|
                        j <= p < order@.len() ==> entries@[#[trigger] order@[p] as int].metadata.downloaded_at_secs
                            > key,
                decreases j,
            {
                j -= 1;
            }
            let ghost old_order = order@;
            let ghost old_sizes = sizes@;
            order.insert(j, i);
            sizes.insert(j, entries[i].metadata.size_mb);
            proof {
                old_order.insert_ensures(j as int, i);
                old_sizes.insert_ensures(j as int, entries@[i as int].metadata.size_mb);
                lemma_sum_insert(old_sizes, j as int, entries@[i as int].metadata.size_mb);
                assert(entries@.take(i + 1).drop_last() =~= entries@.take(i as int));
                assert forall|p: int, q: int| 0 <= p < q < order@.len() implies leaves_before(
                    entries@,
                    #[trigger] order@[p] as int,
                    #[trigger] order@[q] as int,
                ) by {
                    if q < j {
                        assert(order@[p] == old_order[p] && order@[q] == old_order[q]);
                    } else if q == j {
                        assert(order@[p] == old_order[p]);
                        if j > 0 {
                            if p < j - 1 {
                                assert(leaves_before(
                                    entries@,
                                    old_order[p] as int,
                                    old_order[j - 1] as int,
                                ));
                            }
                        }
                    } else if p < j {
                        assert(order@[p] == old_order[p] && order@[q] == old_order[q - 1]);
                    } else if p == j {
                        assert(order@[q] == old_order[q - 1]);
                    } else {
                        assert(order@[p] == old_order[p - 1] && order@[q] == old_order[q - 1]);
                    }
                }
                assert forall|k: int| 0 <= k < i + 1 && entries@[k].complete implies #[trigger] lists(
                    order@,
                    k,
                ) by {
                    if k == i {
                        assert(order@[j as int] == k);
                    } else {
                        assert(lists(old_order, k));
                        let p0 = choose|p: int| 0 <= p < old_order.len() && #[trigger] old_order[p] == k;
                        if p0 < j {
                            assert(order@[p0] == k);
                        } else {
                            assert(order@[p0 + 1] == k);
                        }
                    }
                }
                assert forall|p: int| 0 <= p < order@.len() implies #[trigger] sizes@[p]
                    == entries@[order@[p] as int].metadata.size_mb by {
                    if p < j {
                        assert(sizes@[p] == old_sizes[p] && order@[p] == old_order[p]);
                    } else if p > j {
                        assert(sizes@[p] == old_sizes[p - 1] && order@[p] == old_order[p - 1]);
                    }
                }
                assert forall|p: int| 0 <= p < order@.len() implies (#[trigger] order@[p]) < i + 1
                    && entries@[order@[p] as int].complete by {
                    if p < j {
                        assert(order@[p] == old_order[p]);
                    } else if p > j {
                        assert(order@[p] == old_order[p - 1]);
                    }
                }
            }
        }
        i += 1;
    }
    proof {
        assert(entries@.take(i as int) =~= entries@);
    }
    (order, sizes)
}

/// The positions of the complete ones among `entries` in the order in which they
/// leave the cache: oldest first, entries of the same age in the order in which they
/// are listed. Entries without marker are not in it.
pub fn eviction_order(entries: &Vec<CacheEntry>) -> (order: Vec<usize>)
    ensures
        is_eviction_order(entries@, order@),
{
    sorted_by_age(entries).0
}

/// `total` less `size`, and 0 where `size` is the greater.
pub open spec fn less_size(total: nat, size: u64) -> nat {
    if total >= size {
        (total - size) as nat
    } else {
        0
    }
}

/// Megabytes left after the first candidates were handed over for removal and
/// `answers` tell of each whether it is gone, starting from `total`.
pub open spec fn total_after_answers(sizes: Seq<u64>, total: nat, answers: Seq<bool>) -> nat
    decreases answers.len(),
{
    if answers.len() == 0 {
        total
    } else {
        let before = total_after_answers(sizes, total, answers.drop_last());
        if answers.last() {
            less_size(before, sizes[answers.len() - 1])
        } else {
            before
        }
    }
}

/// How many of `answers` say that the entry is gone.
pub open spec fn count_gone(answers: Seq<bool>) -> nat
    decreases answers.len(),
{
    if answers.len() == 0 {
        0
    } else {
        count_gone(answers.drop_last()) + if answers.last() {
            1nat
        } else {
            0nat
        }
    }
}

/// Whether the cache is still over the budget of `e` once the first candidates of
/// `e` were handed over with these answers.
pub open spec fn over_budget_after(e: Evictor, answers: Seq<bool>) -> bool {
    e.limit() matches Some(limit) && total_after_answers(e.candidate_sizes(), e.total(), answers)
        > limit
}

/// Whether `answers` can be the answers of a pass that begins at `e`: there is a
/// candidate for each, and each candidate was handed over because the cache was
/// still over its budget after the answers before.
pub open spec fn follows_answers(e: Evictor, answers: Seq<bool>) -> bool {
    &&& answers.len() <= e.candidates().len()
    &&& forall|k: int| 0 <= k < answers.len() ==> over_budget_after(e, #[trigger] answers.take(k))
}

/// One pass of eviction: who leaves next, and how much is left. Its candidates are
/// the complete entries; what the entries without marker take up is in the total
/// and stays there.
pub struct Evictor {
    order: Vec<usize>,
    sizes: Vec<u64>,
    next: usize,
    total_mb: u128,
    limit_mb: Option<u64>,
}

impl Evictor {
    /// The positions of the complete entries that have not been looked at, oldest
    /// first.
    pub closed spec fn candidates(self) -> Seq<usize> {
        self.order@.skip(self.next as int)
    }

    /// The sizes of those entries, in the same order.
    pub closed spec fn candidate_sizes(self) -> Seq<u64> {
        self.sizes@.skip(self.next as int)
    }

    /// Megabytes that the cache is taken to hold.
    pub closed spec fn total(self) -> nat {
        self.total_mb as nat
    }

    /// The budget in megabytes, if there is one.
    pub closed spec fn limit(self) -> Option<u64> {
        self.limit_mb
    }

    /// Every candidate has its size.
    pub closed spec fn wf(self) -> bool {
        self.order@.len() == self.sizes@.len() && self.next <= self.order@.len()
    }

    /// Whether the cache holds more than its budget.
    pub open spec fn over_budget(self) -> bool {
        self.limit() matches Some(limit) && self.total() > limit
    }

    /// The entry to remove next, if any: the oldest candidate while the cache is over
    /// its budget.
    pub open spec fn victim(self) -> Option<usize> {
        if self.over_budget() && self.candidates().len() > 0 {
            Some(self.candidates()[0])
        } else {
            None
        }
    }

    /// The position of the entry to remove next; `None` when the pass is over.
    pub fn next_victim(&self) -> (r: Option<usize>)
        requires
            self.wf(),
        ensures
            r == self.victim(),
            self.candidates().len() == self.candidate_sizes().len(),
    {
        match self.limit_mb {
            Some(limit) => {
                if self.total_mb > limit as u128 && self.next < self.order.len() {
                    Some(self.order[self.next])
                } else {
                    None
                }
            },
            None => None,
        }
    }

    /// Takes in what became of the entry that `next_victim` named: removed, or still
    /// there because removing it failed. Either way the next candidate is up; only a
    /// removed entry makes the cache smaller. Without a victim nothing changes.
    pub fn report(&mut self, removed: bool)
        requires
            old(self).wf(),
        ensures
            final(self).wf(),
            final(self).limit() == old(self).limit(),
            old(self).victim() is None ==> *final(self) == *old(self),
            old(self).victim() is Some ==> {
                &&& final(self).candidates() == old(self).candidates().drop_first()
                &&& final(self).candidate_sizes() == old(self).candidate_sizes().drop_first()
                &&& final(self).total() == if removed {
                    less_size(old(self).total(), old(self).candidate_sizes()[0])
                } else {
                    old(self).total()
                }
            },
    {
        let victim = self.next_victim();
        let count = self.order.len();
        if victim.is_some() {
            assert(self.candidates().len() == count - self.next);
            if removed {
                let size = self.sizes[self.next];
                self.total_mb = if self.total_mb >= size as u128 {
                    self.total_mb - size as u128
                } else {
                    0
                };
            }
            self.next = self.next + 1;
            proof {
                assert(self.candidates() =~= old(self).candidates().drop_first());
                assert(self.candidate_sizes() =~= old(self).candidate_sizes().drop_first());
            }
        }
    }

    /// Megabytes left after a pass in which every removal succeeds.
    pub open spec fn total_if_all_removed(self) -> nat {
        match self.limit() {
            Some(limit) => total_after_pass(self.candidate_sizes(), self.total(), limit),
            None => self.total(),
        }
    }

    /// Runs the pass to its end: hands each victim to `remove`, which tells whether
    /// the entry is gone, until the cache is within its budget or no candidate is
    /// left. Gives the number of entries removed.
    ///
    /// The candidates are handed over in order, one call each, for as long as the
    /// cache is over its budget; what becomes of the total follows from the answers.
    /// If no removal fails, the cache ends up as small as `total_if_all_removed`
    /// says, and the candidates that are gone are the first `evicted_in_pass` of
    /// them: among them every one that is larger than the budget.
    pub fn run<F: Fn(usize) -> bool>(&mut self, remove: F) -> (removed: usize)
        requires
            old(self).wf(),
            forall|victim: usize| remove.requires((victim,)),
        ensures
            final(self).wf(),
            final(self).limit() == old(self).limit(),
            final(self).victim() is None,
            final(self).total() <= old(self).total(),
            exists|answers: Seq<bool>|
                {
                    &&& follows_answers(*old(self), answers)
                    &&& forall|k: int|
                        0 <= k < answers.len() ==> remove.ensures(
                            (old(self).candidates()[k],),
                            #[trigger] answers[k],
                        )
                    &&& final(self).candidates() == old(self).candidates().skip(
                        answers.len() as int,
                    )
                    &&& final(self).candidate_sizes() == old(self).candidate_sizes().skip(
                        answers.len() as int,
                    )
                    &&& final(self).total() == total_after_answers(
                        old(self).candidate_sizes(),
                        old(self).total(),
                        answers,
                    )
                    &&& removed == count_gone(answers)
                },
            (forall|victim: usize, gone: bool| remove.ensures((victim,), gone) ==> gone)
                ==> final(self).total() == old(self).total_if_all_removed() && (old(
                self,
            ).limit() matches Some(limit) ==> final(self).candidates() == old(
                self,
            ).candidates().skip(
                evicted_in_pass(old(self).candidate_sizes(), old(self).total(), limit) as int,
            )),
    {
        let mut removed: usize = 0;
        let count = self.order.len();
        assert(self.candidates().len() <= count);
        let ghost all_gone = forall|victim: usize, gone: bool|
            remove.ensures((victim,), gone) ==> gone;
        let ghost mut answers: Seq<bool> = Seq::empty();
        proof {
            assert(self.candidates().skip(0) =~= self.candidates());
            assert(self.candidate_sizes().skip(0) =~= self.candidate_sizes());
        }
        loop
            invariant
                self.wf(),
                old(self).wf(),
                old(self).candidates().len() <= usize::MAX,
                old(self).candidates().len() == old(self).candidate_sizes().len(),
                self.limit() == old(self).limit(),
                self.total() <= old(self).total(),
                answers.len() + self.candidates().len() == old(self).candidates().len(),
                follows_answers(*old(self), answers),
                forall|k: int|
                    0 <= k < answers.len() ==> remove.ensures(
                        (old(self).candidates()[k],),
                        #[trigger] answers[k],
                    ),
                self.candidates() == old(self).candidates().skip(answers.len() as int),
                self.candidate_sizes() == old(self).candidate_sizes().skip(answers.len() as int),
                self.total() == total_after_answers(
                    old(self).candidate_sizes(),
                    old(self).total(),
                    answers,
                ),
                removed == count_gone(answers),
                removed <= answers.len(),
                forall|victim: usize| remove.requires((victim,)),
                all_gone == (forall|victim: usize, gone: bool|
                    remove.ensures((victim,), gone) ==> gone),
                all_gone ==> self.total_if_all_removed() == old(self).total_if_all_removed(),
            decreases self.candidates().len(),
        {
            match self.next_victim() {
                None => {
                    proof {
                        if all_gone {
                            if let Some(limit) = self.limit() {
                                assert forall|k: int| 0 <= k < answers.len() implies
                                    #[trigger] answers[k] by {
                                    assert(remove.ensures(
                                        (old(self).candidates()[k],),
                                        answers[k],
                                    ));
                                }
                                assert forall|k: int| 0 <= k < answers.len() implies
                                    total_after_answers(
                                    old(self).candidate_sizes(),
                                    old(self).total(),
                                    #[trigger] answers.take(k),
                                ) > limit by {
                                    assert(over_budget_after(*old(self), answers.take(k)));
                                }
                                lemma_clean_pass(
                                    old(self).candidate_sizes(),
                                    old(self).total(),
                                    limit,
                                    answers,
                                );
                            }
                        }
                    }
                    return removed;
                },
                Some(victim) => {
                    let gone = remove(victim);
                    let ghost before = *self;
                    let ghost earlier = answers;
                    self.report(gone);
                    proof {
                        assert(before.candidates().len() > 0);
                        assert(self.candidates().len() == before.candidates().len() - 1);
                        answers = earlier.push(gone);
                        let at = earlier.len() as int;
                        assert(before.candidates()[0] == old(self).candidates()[at]);
                        assert(before.candidate_sizes()[0] == old(self).candidate_sizes()[at]);
                        assert(answers.drop_last() =~= earlier);
                        assert(self.candidates() =~= old(self).candidates().skip(at + 1));
                        assert(self.candidate_sizes() =~= old(self).candidate_sizes().skip(at + 1));
                        assert forall|k: int| 0 <= k < answers.len() implies remove.ensures(
                            (old(self).candidates()[k],),
                            #[trigger] answers[k],
                        ) by {
                            if k < at {
                                assert(answers[k] == earlier[k]);
                            }
                        }
                        assert(follows_answers(*old(self), answers)) by {
                            assert forall|k: int| 0 <= k < answers.len() implies over_budget_after(
                                *old(self),
                                #[trigger] answers.take(k),
                            ) by {
                                if k < at {
                                    assert(answers.take(k) =~= earlier.take(k));
                                } else {
                                    assert(answers.take(k) =~= earlier);
                                }
                            }
                        }
                    }
                    if gone {
                        removed = removed + 1;
                    }
                },
            }
        }
    }

    /// Megabytes that the cache is taken to hold.
    pub fn total_size_mb(&self) -> (r: u128)
        ensures
            r == self.total(),
    {
        self.total_mb
    }
}

/// No entry takes up more than 64 bits hold, so the entries together take up no
/// more than that for each of them.
pub proof fn lemma_total_mb_bound(entries: Seq<CacheEntry>)
    ensures
        total_mb(entries) <= entries.len() * u64::MAX,
    decreases entries.len(),
{
    if entries.len() > 0 {
        lemma_total_mb_bound(entries.drop_last());
        assert((entries.len() - 1) * u64::MAX + u64::MAX == entries.len() * u64::MAX)
            by (nonlinear_arith);
    }
}

/// Total size of all `entries` in megabytes, however large.
fn wide_total_mb(entries: &Vec<CacheEntry>) -> (r: u128)
    ensures
        r == total_mb(entries@),
{
    let mut total: u128 = 0;
    let mut i: usize = 0;
    while i < entries.len()
        invariant
            i <= entries@.len(),
            total == total_mb(entries@.take(i as int)),
        decreases entries@.len() - i,
    {
        proof {
            assert(entries@.take(i + 1).drop_last() =~= entries@.take(i as int));
            lemma_total_mb_bound(entries@.take(i + 1));
            assert(entries@.take(i + 1).len() <= u64::MAX);
            assert(entries@.take(i + 1).len() * u64::MAX <= u64::MAX * u64::MAX)
                by (nonlinear_arith)
                requires
                    entries@.take(i + 1).len() <= u64::MAX,
            ;
            assert(u64::MAX * u64::MAX <= u128::MAX) by (nonlinear_arith);
        }
        total = total + entries[i].metadata.size_mb as u128;
        i += 1;
    }
    proof {
        assert(entries@.take(i as int) =~= entries@);
    }
    total
}

/// Begins a pass of eviction over `entries` with the budget `limit_mb`; `None` stands
/// for no budget, and then the pass is over before it begins: nothing is evicted,
/// whatever the cache holds.
///
/// All entries count toward the size of the cache, but only the complete ones are
/// candidates: the pass names them oldest first, for as long as the cache holds more
/// than its budget. If every entry that it names is removed, the cache ends up
/// within the budget, or with nothing but what the entries without marker take up.
/// The pass never fails to begin; the result is `Ok` for every cache and budget.
pub fn enforce_cache_limit_now(entries: &Vec<CacheEntry>, limit_mb: Option<u64>) -> (r: Result<
    Evictor,
    GaggleError,
>)
    ensures
        r matches Ok(e) && {
            &&& e.wf()
            &&& e.limit() == limit_mb
            &&& e.total() == total_mb(entries@)
            &&& is_eviction_order(entries@, e.candidates())
            &&& e.candidate_sizes().len() == e.candidates().len()
            &&& forall|p: int|
                0 <= p < e.candidates().len() ==> #[trigger] e.candidate_sizes()[p]
                    == entries@[e.candidates()[p] as int].metadata.size_mb
            &&& sum_sizes(e.candidate_sizes()) == complete_mb(entries@)
            &&& limit_mb is None ==> e.victim() is None
            &&& limit_mb matches Some(limit) ==> {
                ||| total_after_pass(e.candidate_sizes(), e.total(), limit) <= limit
                ||| total_after_pass(e.candidate_sizes(), e.total(), limit) == total_mb(entries@)
                    - complete_mb(entries@)
            }
        },
{
    let total_mb = wide_total_mb(entries);
    let (order, sizes) = sorted_by_age(entries);
    let e = Evictor { order, sizes, next: 0, total_mb, limit_mb };
    proof {
        assert(e.candidates() =~= e.order@);
        assert(e.candidate_sizes() =~= e.sizes@);
        lemma_complete_within_total(entries@);
        if let Some(limit) = limit_mb {
            lemma_pass_reaches_budget(e.sizes@, total_mb as nat, limit);
        }
    }
    Ok(e)
}

/// Megabytes left after a pass in which every removal succeeds: the candidates leave
/// in turn until the cache is within `limit`.
pub open spec fn total_after_pass(sizes: Seq<u64>, total: nat, limit: u64) -> nat
    decreases sizes.len(),
{
    if total <= limit || sizes.len() == 0 {
        total
    } else {
        total_after_pass(sizes.drop_first(), less_size(total, sizes[0]), limit)
    }
}

/// Number of candidates that leave in a pass in which every removal succeeds.
pub open spec fn evicted_in_pass(sizes: Seq<u64>, total: nat, limit: u64) -> nat
    decreases sizes.len(),
{
    if total <= limit || sizes.len() == 0 {
        0
    } else {
        1 + evicted_in_pass(sizes.drop_first(), less_size(total, sizes[0]), limit)
    }
}

/// The sum of sizes, taken from the front.
pub proof fn lemma_sum_from_front(sizes: Seq<u64>)
    requires
        sizes.len() > 0,
    ensures
        sum_sizes(sizes) == sizes[0] + sum_sizes(sizes.drop_first()),
    decreases sizes.len(),
{
    if sizes.len() == 1 {
        assert(sizes.drop_first() =~= sizes.drop_last());
        assert(sum_sizes(sizes.drop_last()) == 0);
    } else {
        lemma_sum_from_front(sizes.drop_last());
        assert(sizes.drop_last().drop_first() =~= sizes.drop_first().drop_last());
        assert(sizes.drop_first().last() == sizes.last());
        assert(sizes.drop_last()[0] == sizes[0]);
    }
}

/// No size is greater than the sum of all.
pub proof fn lemma_size_within_sum(sizes: Seq<u64>, p: int)
    requires
        0 <= p < sizes.len(),
    ensures
        sizes[p] <= sum_sizes(sizes),
    decreases sizes.len(),
{
    if p < sizes.len() - 1 {
        lemma_size_within_sum(sizes.drop_last(), p);
    }
}

/// A pass of eviction in which every removal succeeds brings the cache within its
/// budget, unless all candidates leave first, and every candidate that is larger than
/// the budget leaves. `sizes` are the sizes of the candidates in their order, and
/// `total` is what the cache holds: the candidates and whatever else counts.
pub proof fn lemma_pass_reaches_budget(sizes: Seq<u64>, total: nat, limit: u64)
    requires
        sum_sizes(sizes) <= total,
    ensures
        total_after_pass(sizes, total, limit) <= limit || total_after_pass(sizes, total, limit)
            == total - sum_sizes(sizes),
        total == sum_sizes(sizes) ==> total_after_pass(sizes, total, limit) <= limit,
        forall|p: int|
            0 <= p < sizes.len() && #[trigger] sizes[p] > limit ==> p < evicted_in_pass(
                sizes,
                total,
                limit,
            ),
    decreases sizes.len(),
{
    if total <= limit {
        assert forall|p: int| 0 <= p < sizes.len() implies #[trigger] sizes[p] <= limit by {
            lemma_size_within_sum(sizes, p);
        }
    } else if sizes.len() == 0 {
    } else {
        let rest = sizes.drop_first();
        lemma_sum_from_front(sizes);
        lemma_pass_reaches_budget(rest, less_size(total, sizes[0]), limit);
        assert forall|p: int| 0 <= p < sizes.len() && #[trigger] sizes[p] > limit implies p
            < evicted_in_pass(sizes, total, limit) by {
            if p > 0 {
                assert(rest[p - 1] == sizes[p]);
            }
        }
    }
}

/// A cache within its budget, or without one, loses nothing.
pub proof fn lemma_within_budget_keeps_all(sizes: Seq<u64>, total: nat, limit: u64)
    requires
        total <= limit,
    ensures
        evicted_in_pass(sizes, total, limit) == 0,
        total_after_pass(sizes, total, limit) == total,
{
}


/// The answers to a pass, taken from the front: after a first candidate that is
/// gone, the rest of the pass goes on with the rest of the candidates and what is
/// left of the total.
pub proof fn lemma_answers_from_front(sizes: Seq<u64>, total: nat, answers: Seq<bool>)
    requires
        0 < answers.len() <= sizes.len(),
    ensures
        total_after_answers(sizes, total, answers) == total_after_answers(
            sizes.drop_first(),
            if answers[0] {
                less_size(total, sizes[0])
            } else {
                total
            },
            answers.drop_first(),
        ),
    decreases answers.len(),
{
    let first = if answers[0] {
        less_size(total, sizes[0])
    } else {
        total
    };
    if answers.len() == 1 {
        assert(answers.drop_last() =~= Seq::<bool>::empty());
        assert(answers.drop_first() =~= Seq::<bool>::empty());
        assert(total_after_answers(sizes, total, answers.drop_last()) == total);
        assert(total_after_answers(sizes.drop_first(), first, answers.drop_first()) == first);
    } else {
        lemma_answers_from_front(sizes, total, answers.drop_last());
        assert(answers.drop_last().drop_first() =~= answers.drop_first().drop_last());
        assert(answers.drop_last()[0] == answers[0]);
        assert(answers.drop_first().last() == answers.last());
        assert(sizes.drop_first()[answers.len() - 2] == sizes[answers.len() - 1]);
    }
}

/// A pass in which no removal fails is the pass that `total_after_pass` and
/// `evicted_in_pass` describe: if every answer says that the entry is gone, each
/// candidate was handed over because the cache was over its budget, and the pass
/// ended because it no longer was or no candidate was left, then as many candidates
/// were handed over as `evicted_in_pass` counts, and the total is what
/// `total_after_pass` gives. With `lemma_pass_reaches_budget`: every candidate larger
/// than the budget was handed over and is gone.
pub proof fn lemma_clean_pass(sizes: Seq<u64>, total: nat, limit: u64, answers: Seq<bool>)
    requires
        answers.len() <= sizes.len(),
        forall|k: int| 0 <= k < answers.len() ==> #[trigger] answers[k],
        forall|k: int|
            0 <= k < answers.len() ==> total_after_answers(sizes, total, #[trigger] answers.take(k))
                > limit,
        answers.len() == sizes.len() || total_after_answers(sizes, total, answers) <= limit,
    ensures
        answers.len() == evicted_in_pass(sizes, total, limit),
        total_after_answers(sizes, total, answers) == total_after_pass(sizes, total, limit),
    decreases answers.len(),
{
    if answers.len() == 0 {
        assert(total_after_answers(sizes, total, answers) == total);
    } else {
        assert(answers.take(0) =~= Seq::<bool>::empty());
        assert(total_after_answers(sizes, total, answers.take(0)) == total);
        assert(total > limit);
        let rest = answers.drop_first();
        let left = less_size(total, sizes[0]);
        lemma_answers_from_front(sizes, total, answers);
        assert forall|k: int| 0 <= k < rest.len() implies total_after_answers(
            sizes.drop_first(),
            left,
            #[trigger] rest.take(k),
        ) > limit by {
            let longer = answers.take(k + 1);
            assert(longer[0] == answers[0]);
            assert(longer.drop_first() =~= rest.take(k));
            lemma_answers_from_front(sizes, total, longer);
        }
        assert forall|k: int| 0 <= k < rest.len() implies #[trigger] rest[k] by {
            assert(rest[k] == answers[k + 1]);
        }
        lemma_clean_pass(sizes.drop_first(), left, limit, rest);
    }
}

} // verus!

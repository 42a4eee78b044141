//! Cache configuration and statistics.

use std::sync::Arc;

use slatedb::db_cache::foyer::{FoyerCache, FoyerCacheOptions};
use slatedb::db_cache::SplitCache;
use slatedb_common::metrics::{DefaultMetricsRecorder, MetricValue, Metrics};
use vstd::multiset::*;
use vstd::prelude::*;

verus! {

/// How much SlateDB caches, and where.
#[derive(Clone, Debug)]
pub struct CacheConfig {
    /// Maximum bytes retained in the in-memory data-block cache; zero disables it.
    pub block_cache_size_bytes: u64,
    /// Maximum bytes retained in the in-memory SST metadata cache; zero disables it.
    pub metadata_cache_size_bytes: u64,
    /// Number of cache shards, or `None` to use the implementation default.
    pub cache_shards: Option<usize>,
    /// Local directory for persistent cached SST parts, or `None` to disable persistence.
    pub persistent_cache_path: Option<String>,
    /// Maximum total size of the persistent cache.
    pub persistent_cache_size_bytes: usize,
    /// Size of each persistent cache part; must be a multiple of 1024 bytes.
    pub persistent_cache_part_size_bytes: usize,
    /// Whether memtable flush output should be inserted into the persistent cache.
    pub persistent_cache_on_flush: bool,
    /// Whether compaction output should be inserted into the persistent cache.
    pub persistent_cache_on_compaction: bool,
}

/// What a [`CacheConfig`] says.
#[verifier::ext_equal]
pub struct CacheConfigView {
    pub block_cache_size_bytes: u64,
    pub metadata_cache_size_bytes: u64,
    pub cache_shards: Option<usize>,
    pub persistent_cache_path: Option<Seq<char>>,
    pub persistent_cache_size_bytes: usize,
    pub persistent_cache_part_size_bytes: usize,
    pub persistent_cache_on_flush: bool,
    pub persistent_cache_on_compaction: bool,
}

/// A text that may be there.
pub open spec fn text_of(text: Option<String>) -> Option<Seq<char>> {
    match text {
        Some(text) => Some(text@),
        None => None,
    }
}

impl View for CacheConfig {
    type V = CacheConfigView;

    open spec fn view(&self) -> CacheConfigView {
        CacheConfigView {
            block_cache_size_bytes: self.block_cache_size_bytes,
            metadata_cache_size_bytes: self.metadata_cache_size_bytes,
            cache_shards: self.cache_shards,
            persistent_cache_path: text_of(self.persistent_cache_path),
            persistent_cache_size_bytes: self.persistent_cache_size_bytes,
            persistent_cache_part_size_bytes: self.persistent_cache_part_size_bytes,
            persistent_cache_on_flush: self.persistent_cache_on_flush,
            persistent_cache_on_compaction: self.persistent_cache_on_compaction,
        }
    }
}

/// The configuration where nothing is configured: SlateDB's own capacities, and
/// no persistence.
pub open spec fn default_config() -> CacheConfigView {
    CacheConfigView {
        block_cache_size_bytes: 0x2000_0000,
        metadata_cache_size_bytes: 0x0800_0000,
        cache_shards: None,
        persistent_cache_path: None,
        persistent_cache_size_bytes: default_persistent_size(),
        persistent_cache_part_size_bytes: 0x0040_0000,
        persistent_cache_on_flush: false,
        persistent_cache_on_compaction: false,
    }
}

/// 16 GiB, or as much as fits this platform.
pub open spec fn default_persistent_size() -> usize {
    if 0x4_0000_0000 <= usize::MAX {
        0x4_0000_0000u64 as usize
    } else {
        usize::MAX
    }
}

/// `slatedb::db_cache::DEFAULT_BLOCK_CACHE_CAPACITY`, which is 512 MiB.
#[verifier::external_body]
fn default_block_cache_capacity() -> (r: u64)
    ensures
        r == 0x2000_0000,
{
    slatedb::db_cache::DEFAULT_BLOCK_CACHE_CAPACITY
}

/// `slatedb::db_cache::DEFAULT_META_CACHE_CAPACITY`, which is 128 MiB.
#[verifier::external_body]
fn default_meta_cache_capacity() -> (r: u64)
    ensures
        r == 0x0800_0000,
{
    slatedb::db_cache::DEFAULT_META_CACHE_CAPACITY
}

impl Default for CacheConfig {
    fn default() -> (r: Self)
        ensures
            r@ == default_config(),
    {
        let sixteen_gib: u64 = 0x4_0000_0000;
        CacheConfig {
            block_cache_size_bytes: default_block_cache_capacity(),
            metadata_cache_size_bytes: default_meta_cache_capacity(),
            cache_shards: None,
            persistent_cache_path: None,
            persistent_cache_size_bytes: if sixteen_gib <= usize::MAX as u64 {
                sixteen_gib as usize
            } else {
                usize::MAX
            },
            persistent_cache_part_size_bytes: 0x0040_0000,
            persistent_cache_on_flush: false,
            persistent_cache_on_compaction: false,
        }
    }
}

/// The settings of an object-store cache that a configuration decides.
#[derive(Debug)]
pub struct ObjectStoreCacheSettings {
    pub root_folder: Option<String>,
    pub max_cache_size_bytes: Option<usize>,
    pub part_size_bytes: usize,
    pub cache_on_flush: bool,
    pub cache_on_compaction: bool,
}

/// What [`ObjectStoreCacheSettings`] say.
#[verifier::ext_equal]
pub struct ObjectStoreCacheView {
    pub root_folder: Option<Seq<char>>,
    pub max_cache_size_bytes: Option<usize>,
    pub part_size_bytes: usize,
    pub cache_on_flush: bool,
    pub cache_on_compaction: bool,
}

impl View for ObjectStoreCacheSettings {
    type V = ObjectStoreCacheView;

    open spec fn view(&self) -> ObjectStoreCacheView {
        ObjectStoreCacheView {
            root_folder: text_of(self.root_folder),
            max_cache_size_bytes: self.max_cache_size_bytes,
            part_size_bytes: self.part_size_bytes,
            cache_on_flush: self.cache_on_flush,
            cache_on_compaction: self.cache_on_compaction,
        }
    }
}

/// One in-memory cache to build.
#[derive(Clone, Copy, Debug, PartialEq, Eq, Structural)]
pub struct MemoryCachePlan {
    pub max_capacity: u64,
    /// Number of shards, or `None` for the implementation default.
    pub shards: Option<usize>,
}

/// The in-memory caches to build, side by side.
#[derive(Clone, Copy, Debug, PartialEq, Eq, Structural)]
pub struct DbCachePlan {
    pub block_cache: Option<MemoryCachePlan>,
    pub metadata_cache: Option<MemoryCachePlan>,
}

/// The cache of a capacity, where zero means none.
pub open spec fn memory_cache(max_capacity: u64, shards: Option<usize>) -> Option<MemoryCachePlan> {
    if max_capacity == 0 {
        None
    } else {
        Some(MemoryCachePlan { max_capacity, shards })
    }
}

fn plan_memory_cache(max_capacity: u64, shards: Option<usize>) -> (r: Option<MemoryCachePlan>)
    ensures
        r == memory_cache(max_capacity, shards),
{
    if max_capacity == 0 {
        return None;
    }
    Some(MemoryCachePlan { max_capacity, shards })
}

impl CacheConfig {
    /// Applies the persistent cache to a writer's settings, which stay as they are
    /// where there is none.
    pub fn apply_to_settings(&self, settings: &mut ObjectStoreCacheSettings)
        ensures
            final(settings)@ == match self@.persistent_cache_path {
                None => old(settings)@,
                Some(path) => ObjectStoreCacheView {
                    root_folder: Some(path),
                    max_cache_size_bytes: Some(self@.persistent_cache_size_bytes),
                    part_size_bytes: self@.persistent_cache_part_size_bytes,
                    cache_on_flush: self@.persistent_cache_on_flush,
                    cache_on_compaction: self@.persistent_cache_on_compaction,
                },
            },
    {
        if let Some(path) = &self.persistent_cache_path {
            settings.root_folder = Some(path.clone());
            settings.max_cache_size_bytes = Some(self.persistent_cache_size_bytes);
            settings.part_size_bytes = self.persistent_cache_part_size_bytes;
            settings.cache_on_flush = self.persistent_cache_on_flush;
            settings.cache_on_compaction = self.persistent_cache_on_compaction;
        }
    }

    /// Applies the persistent cache to a reader's options, which stay as they are
    /// where there is none. A reader neither flushes nor compacts.
    pub fn apply_to_reader_options(&self, options: &mut ObjectStoreCacheSettings)
        ensures
            final(options)@ == match self@.persistent_cache_path {
                None => old(options)@,
                Some(path) => ObjectStoreCacheView {
                    root_folder: Some(path),
                    max_cache_size_bytes: Some(self@.persistent_cache_size_bytes),
                    part_size_bytes: self@.persistent_cache_part_size_bytes,
                    ..old(options)@
                },
            },
    {
        if let Some(path) = &self.persistent_cache_path {
            options.root_folder = Some(path.clone());
            options.max_cache_size_bytes = Some(self.persistent_cache_size_bytes);
            options.part_size_bytes = self.persistent_cache_part_size_bytes;
        }
    }

    /// The in-memory caches to build, or `None` where both are disabled.
    pub fn build_db_cache(&self) -> (r: Option<DbCachePlan>)
        ensures
            r == if self.block_cache_size_bytes == 0 && self.metadata_cache_size_bytes == 0 {
                None
            } else {
                Some(
                    DbCachePlan {
                        block_cache: memory_cache(self.block_cache_size_bytes, self.cache_shards),
                        metadata_cache: memory_cache(
                            self.metadata_cache_size_bytes,
                            self.cache_shards,
                        ),
                    },
                )
            },
    {
        if self.block_cache_size_bytes == 0 && self.metadata_cache_size_bytes == 0 {
            return None;
        }
        Some(
            DbCachePlan {
                block_cache: plan_memory_cache(self.block_cache_size_bytes, self.cache_shards),
                metadata_cache: plan_memory_cache(
                    self.metadata_cache_size_bytes,
                    self.cache_shards,
                ),
            },
        )
    }
}

/// `slatedb::db_cache::foyer::FoyerCache`, an in-memory cache in shards.
#[verifier::external_type_specification]
#[verifier::external_body]
pub struct ExFoyerCache(slatedb::db_cache::foyer::FoyerCache);

/// `slatedb::db_cache::SplitCache`, which keeps blocks in one cache and what
/// describes them in another.
#[verifier::external_type_specification]
#[verifier::external_body]
pub struct ExSplitCache(slatedb::db_cache::SplitCache);

/// What an in-memory cache was made with.
pub struct MemoryCacheSetup {
    pub max_capacity: u64,
    pub shards: usize,
}

/// The caches that stand side by side.
pub struct SplitCacheSetup {
    pub block_cache: Option<MemoryCacheSetup>,
    pub metadata_cache: Option<MemoryCacheSetup>,
}

/// What a Foyer cache was made with.
pub uninterp spec fn made_with(cache: FoyerCache) -> MemoryCacheSetup;

/// The caches in a split cache.
pub uninterp spec fn caches_in(cache: SplitCache) -> SplitCacheSetup;

/// What a cache was made with, where there is one.
pub open spec fn setup_in(cache: Option<FoyerCache>) -> Option<MemoryCacheSetup> {
    match cache {
        Some(cache) => Some(made_with(cache)),
        None => None,
    }
}

/// Whether a cache can have this many shards: at least one, and no more than a list
/// can hold, at less than a kilobyte each.
pub open spec fn shards_fit(shards: usize) -> bool {
    shards > 0 && shards * 1024 <= isize::MAX
}

/// Tells whether a cache can have this many shards.
fn do_shards_fit(shards: usize) -> (r: bool)
    ensures
        r == shards_fit(shards),
{
    shards > 0 && shards <= isize::MAX as usize / 1024
}

/// `FoyerCache::new_with_opts`. The cache is made with the capacity and the shards
/// that it is given. It panics without a shard, and where the list of the shards
/// would be too long.
#[verifier::external_body]
fn new_foyer_cache(max_capacity: u64, shards: usize) -> (r: FoyerCache)
    requires
        shards_fit(shards),
    ensures
        made_with(r) == (MemoryCacheSetup { max_capacity, shards }),
{
    FoyerCache::new_with_opts(FoyerCacheOptions { max_capacity, shards })
}

/// `SplitCache::new` holds no cache.
pub assume_specification[ slatedb::db_cache::SplitCache::new ]() -> (r: SplitCache)
    ensures
        caches_in(r) == (SplitCacheSetup { block_cache: None, metadata_cache: None }),
;

/// `SplitCache::with_block_cache` sets the cache of the blocks alone.
#[verifier::external_body]
fn with_block_cache(split: SplitCache, cache: Option<FoyerCache>) -> (r: SplitCache)
    ensures
        caches_in(r) == (SplitCacheSetup { block_cache: setup_in(cache), ..caches_in(split) }),
{
    match cache {
        Some(cache) => split.with_block_cache(Some(Arc::new(cache))),
        None => split.with_block_cache(None),
    }
}

/// `SplitCache::with_meta_cache` sets the cache of the metadata alone.
#[verifier::external_body]
fn with_meta_cache(split: SplitCache, cache: Option<FoyerCache>) -> (r: SplitCache)
    ensures
        caches_in(r) == (SplitCacheSetup { metadata_cache: setup_in(cache), ..caches_in(split) }),
{
    match cache {
        Some(cache) => split.with_meta_cache(Some(Arc::new(cache))),
        None => split.with_meta_cache(None),
    }
}

/// `SplitCache::build` changes nothing.
pub assume_specification[ slatedb::db_cache::SplitCache::build ](split: SplitCache) -> (r:
    SplitCache)
    ensures
        caches_in(r) == caches_in(split),
;

/// What a planned cache is made with, where there is one.
pub open spec fn planned_setup(
    plan: Option<MemoryCachePlan>,
    default_shards: usize,
) -> Option<MemoryCacheSetup> {
    match plan {
        Some(plan) => Some(
            MemoryCacheSetup {
                max_capacity: plan.max_capacity,
                shards: match plan.shards {
                    Some(shards) => shards,
                    None => default_shards,
                },
            },
        ),
        None => None,
    }
}

/// Whether a planned cache, where there is one, can have its shards.
pub open spec fn can_be_made(plan: Option<MemoryCachePlan>, default_shards: usize) -> bool {
    planned_setup(plan, default_shards) matches Some(setup) ==> shards_fit(setup.shards)
}

impl MemoryCachePlan {
    /// The number of shards, given the implementation default.
    fn shard_count(&self, default_shards: usize) -> (r: usize)
        ensures
            r == planned_setup(Some(*self), default_shards)->0.shards,
    {
        match self.shards {
            Some(shards) => shards,
            None => default_shards,
        }
    }
}

/// Builds a planned cache, where there is one.
fn build_foyer_cache(plan: Option<MemoryCachePlan>, default_shards: usize) -> (r: Option<
    FoyerCache,
>)
    requires
        can_be_made(plan, default_shards),
    ensures
        setup_in(r) == planned_setup(plan, default_shards),
{
    match plan {
        Some(plan) => Some(new_foyer_cache(plan.max_capacity, plan.shard_count(default_shards))),
        None => None,
    }
}

impl DbCachePlan {
    /// Whether the caches can have their shards, given the implementation default.
    pub fn can_be_built(&self, default_shards: usize) -> (r: bool)
        ensures
            r == (can_be_made(self.block_cache, default_shards) && can_be_made(
                self.metadata_cache,
                default_shards,
            )),
    {
        let block_fits = match &self.block_cache {
            Some(plan) => do_shards_fit(plan.shard_count(default_shards)),
            None => true,
        };
        let metadata_fits = match &self.metadata_cache {
            Some(plan) => do_shards_fit(plan.shard_count(default_shards)),
            None => true,
        };
        block_fits && metadata_fits
    }

    /// Builds the caches and puts them side by side.
    pub fn build(self, default_shards: usize) -> (r: SplitCache)
        requires
            can_be_made(self.block_cache, default_shards),
            can_be_made(self.metadata_cache, default_shards),
        ensures
            caches_in(r) == (SplitCacheSetup {
                block_cache: planned_setup(self.block_cache, default_shards),
                metadata_cache: planned_setup(self.metadata_cache, default_shards),
            }),
    {
        let split = SplitCache::new();
        let split = with_block_cache(split, build_foyer_cache(self.block_cache, default_shards));
        let split = with_meta_cache(split, build_foyer_cache(self.metadata_cache, default_shards));
        split.build()
    }
}

/// How the caches have done so far.
#[derive(Clone, Copy, Debug, PartialEq, Eq, Structural)]
pub struct CacheStats {
    pub block_cache_hits: u64,
    pub block_cache_misses: u64,
    pub metadata_cache_hits: u64,
    pub metadata_cache_misses: u64,
    pub persistent_cache_hits: u64,
    pub persistent_cache_misses: u64,
    pub persistent_cache_entries: u64,
    pub persistent_cache_size_bytes: u64,
    pub persistent_cache_evictions: u64,
    pub persistent_cache_evicted_bytes: u64,
}

/// `slatedb_common::metrics::Metrics`: a list of metrics, each with a name,
/// labels and a value.
#[verifier::external_type_specification]
#[verifier::external_body]
pub struct ExMetrics(slatedb_common::metrics::Metrics);

/// `slatedb_common::metrics::DefaultMetricsRecorder`, which SlateDB counts into.
#[verifier::external_type_specification]
#[verifier::external_body]
pub struct ExDefaultMetricsRecorder(slatedb_common::metrics::DefaultMetricsRecorder);

/// The value of a metric, as far as the statistics read it.
#[derive(Clone, Copy, Debug, PartialEq, Eq, Structural)]
pub enum MetricReading {
    Counter(u64),
    Gauge(i64),
    Other,
}

/// The labels of a metric, of which the order does not matter.
pub type Labels = Multiset<(Seq<char>, Seq<char>)>;

/// One metric of a snapshot.
pub struct MetricEntry {
    pub name: Seq<char>,
    pub labels: Labels,
    pub reading: MetricReading,
}

/// The metrics in a snapshot, in order.
pub uninterp spec fn metrics_in(metrics: slatedb_common::metrics::Metrics) -> Seq<MetricEntry>;

/// The first metric of a name with exactly these labels, if there is one.
pub open spec fn reading_of(
    entries: Seq<MetricEntry>,
    name: Seq<char>,
    labels: Labels,
) -> Option<MetricReading>
    decreases entries.len(),
{
    if entries.len() == 0 {
        None
    } else if entries[0].name == name && entries[0].labels == labels {
        Some(entries[0].reading)
    } else {
        reading_of(entries.drop_first(), name, labels)
    }
}

/// Labels written as a list.
pub open spec fn labels_of(labels: Seq<(&str, &str)>) -> Labels {
    labels.map_values(|label: (&str, &str)| (label.0@, label.1@)).to_multiset()
}

/// `Metrics::by_name_and_labels`: finds the first metric of a name whose labels
/// are these, whatever their order, and gives its value.
#[verifier::external_body]
fn find_metric(metrics: &Metrics, name: &str, labels: &[(&str, &str)]) -> (r: Option<MetricReading>)
    ensures
        r == reading_of(metrics_in(*metrics), name@, labels_of(labels@)),
{
    match &metrics.by_name_and_labels(name, labels)?.value {
        MetricValue::Counter(value) => Some(MetricReading::Counter(*value)),
        MetricValue::Gauge(value) => Some(MetricReading::Gauge(*value)),
        MetricValue::UpDownCounter(_) => Some(MetricReading::Other),
        MetricValue::Histogram { .. } => Some(MetricReading::Other),
    }
}

/// Whether `metrics` are what a recorder held at some time.
pub uninterp spec fn held_by(
    recorder: slatedb_common::metrics::DefaultMetricsRecorder,
    metrics: slatedb_common::metrics::Metrics,
) -> bool;

/// `DefaultMetricsRecorder::snapshot`: the metrics that the recorder holds. What
/// has been counted into it by now is SlateDB's to say.
#[verifier::external_body]
fn snapshot(recorder: &DefaultMetricsRecorder) -> (r: Metrics)
    ensures
        held_by(*recorder, r),
{
    recorder.snapshot()
}

/// The metrics that a recorder held when it was made. Others count into it from
/// then on, so what it holds later is not said.
pub uninterp spec fn held_at_first(
    recorder: slatedb_common::metrics::DefaultMetricsRecorder,
) -> Seq<MetricEntry>;

/// `DefaultMetricsRecorder::new`: makes a recorder that holds no metrics yet.
#[verifier::external_body]
fn new_recorder() -> (r: DefaultMetricsRecorder)
    ensures
        held_at_first(r) == Seq::<MetricEntry>::empty(),
{
    DefaultMetricsRecorder::new()
}

/// What a counter says, zero where there is none.
pub open spec fn counter_in(entries: Seq<MetricEntry>, name: Seq<char>, labels: Labels) -> u64 {
    match reading_of(entries, name, labels) {
        Some(MetricReading::Counter(value)) => value,
        _ => 0,
    }
}

/// What a gauge says, zero where there is none or it is below zero.
pub open spec fn gauge_in(entries: Seq<MetricEntry>, name: Seq<char>, labels: Labels) -> u64 {
    match reading_of(entries, name, labels) {
        Some(MetricReading::Gauge(value)) => if value >= 0 {
            value as u64
        } else {
            0
        },
        _ => 0,
    }
}

/// The labels of an access of one kind to the in-memory cache.
pub open spec fn access_labels(entry_kind: Seq<char>, result: Seq<char>) -> Labels {
    seq![("entry_kind"@, entry_kind), ("result"@, result)].to_multiset()
}

/// The accesses of one kind to the in-memory cache that ended in `result`.
pub open spec fn accesses(
    entries: Seq<MetricEntry>,
    entry_kind: Seq<char>,
    result: Seq<char>,
) -> u64 {
    counter_in(entries, "slatedb.db_cache.access_count"@, access_labels(entry_kind, result))
}

/// The metadata accesses that ended in `result`: filters, indices and stats.
pub open spec fn metadata_accesses(entries: Seq<MetricEntry>, result: Seq<char>) -> int {
    accesses(entries, "filter"@, result) + accesses(entries, "index"@, result) + accesses(
        entries,
        "stats"@,
        result,
    )
}

/// A counter of the persistent cache.
pub open spec fn persistent_counter(entries: Seq<MetricEntry>, name: Seq<char>) -> u64 {
    counter_in(entries, name, Multiset::empty())
}

/// The statistics that metrics come to, where the metadata accesses fit.
pub open spec fn stats_in(entries: Seq<MetricEntry>) -> CacheStats {
    let hits = persistent_counter(entries, "slatedb.object_store_cache.part_hit_count"@);
    let parts = persistent_counter(entries, "slatedb.object_store_cache.part_access_count"@);
    CacheStats {
        block_cache_hits: accesses(entries, "data_block"@, "hit"@),
        block_cache_misses: accesses(entries, "data_block"@, "miss"@),
        metadata_cache_hits: metadata_accesses(entries, "hit"@) as u64,
        metadata_cache_misses: metadata_accesses(entries, "miss"@) as u64,
        persistent_cache_hits: hits,
        persistent_cache_misses: if parts >= hits {
            (parts - hits) as u64
        } else {
            0
        },
        persistent_cache_entries: gauge_in(
            entries,
            "slatedb.object_store_cache.cache_keys"@,
            Multiset::empty(),
        ),
        persistent_cache_size_bytes: gauge_in(
            entries,
            "slatedb.object_store_cache.cache_bytes"@,
            Multiset::empty(),
        ),
        persistent_cache_evictions: persistent_counter(
            entries,
            "slatedb.object_store_cache.evicted_keys"@,
        ),
        persistent_cache_evicted_bytes: persistent_counter(
            entries,
            "slatedb.object_store_cache.evicted_bytes"@,
        ),
    }
}

/// Whether the metadata accesses can be added up.
pub open spec fn accesses_fit(entries: Seq<MetricEntry>) -> bool {
    metadata_accesses(entries, "hit"@) <= u64::MAX && metadata_accesses(entries, "miss"@)
        <= u64::MAX
}

fn metric_counter(metrics: &Metrics, name: &str, labels: &[(&str, &str)]) -> (r: u64)
    ensures
        r == counter_in(metrics_in(*metrics), name@, labels_of(labels@)),
{
    match find_metric(metrics, name, labels) {
        Some(MetricReading::Counter(value)) => value,
        _ => 0,
    }
}

fn metric_gauge(metrics: &Metrics, name: &str, labels: &[(&str, &str)]) -> (r: u64)
    ensures
        r == gauge_in(metrics_in(*metrics), name@, labels_of(labels@)),
{
    match find_metric(metrics, name, labels) {
        Some(MetricReading::Gauge(value)) => if value >= 0 {
            value as u64
        } else {
            0
        },
        _ => 0,
    }
}

fn access_count(metrics: &Metrics, entry_kind: &str, result: &str) -> (r: u64)
    ensures
        r == accesses(metrics_in(*metrics), entry_kind@, result@),
{
    let mut labels: Vec<(&str, &str)> = Vec::new();
    labels.push(("entry_kind", entry_kind));
    labels.push(("result", result));
    proof {
        assert(labels@.map_values(|label: (&str, &str)| (label.0@, label.1@)) =~= seq![
            ("entry_kind"@, entry_kind@),
            ("result"@, result@),
        ]);
    }
    metric_counter(metrics, "slatedb.db_cache.access_count", labels.as_slice())
}

fn plain_counter(metrics: &Metrics, name: &str) -> (r: u64)
    ensures
        r == persistent_counter(metrics_in(*metrics), name@),
{
    let labels: Vec<(&str, &str)> = Vec::new();
    proof {
        lemma_no_labels(labels@);
    }
    metric_counter(metrics, name, labels.as_slice())
}

fn plain_gauge(metrics: &Metrics, name: &str) -> (r: u64)
    ensures
        r == gauge_in(metrics_in(*metrics), name@, Multiset::empty()),
{
    let labels: Vec<(&str, &str)> = Vec::new();
    proof {
        lemma_no_labels(labels@);
    }
    metric_gauge(metrics, name, labels.as_slice())
}

proof fn lemma_no_labels(labels: Seq<(&str, &str)>)
    requires
        labels.len() == 0,
    ensures
        labels_of(labels) == Multiset::<(Seq<char>, Seq<char>)>::empty(),
{
    let views = labels.map_values(|label: (&str, &str)| (label.0@, label.1@));
    views.to_multiset_ensures();
    assert(labels_of(labels) =~= Multiset::empty());
}

fn metadata_access_count(metrics: &Metrics, result: &str) -> (r: Option<u64>)
    ensures
        r is Some <==> metadata_accesses(metrics_in(*metrics), result@) <= u64::MAX,
        r matches Some(count) ==> count == metadata_accesses(metrics_in(*metrics), result@),
{
    let filters = access_count(metrics, "filter", result);
    let indices = access_count(metrics, "index", result);
    let stats = access_count(metrics, "stats", result);
    match filters.checked_add(indices) {
        Some(sum) => sum.checked_add(stats),
        None => None,
    }
}

/// Reads the cache statistics out of a metrics snapshot. There are none where the
/// metadata accesses do not add up to a number that can be held.
pub fn cache_stats(metrics: &Metrics) -> (r: Option<CacheStats>)
    ensures
        r is Some <==> accesses_fit(metrics_in(*metrics)),
        r matches Some(stats) ==> stats == stats_in(metrics_in(*metrics)),
{
    let metadata_cache_hits = match metadata_access_count(metrics, "hit") {
        Some(count) => count,
        None => {
            return None;
        },
    };
    let metadata_cache_misses = match metadata_access_count(metrics, "miss") {
        Some(count) => count,
        None => {
            return None;
        },
    };
    let persistent_hits = plain_counter(metrics, "slatedb.object_store_cache.part_hit_count");
    let persistent_accesses = plain_counter(
        metrics,
        "slatedb.object_store_cache.part_access_count",
    );
    Some(
        CacheStats {
            block_cache_hits: access_count(metrics, "data_block", "hit"),
            block_cache_misses: access_count(metrics, "data_block", "miss"),
            metadata_cache_hits,
            metadata_cache_misses,
            persistent_cache_hits: persistent_hits,
            persistent_cache_misses: persistent_accesses.saturating_sub(persistent_hits),
            persistent_cache_entries: plain_gauge(
                metrics,
                "slatedb.object_store_cache.cache_keys",
            ),
            persistent_cache_size_bytes: plain_gauge(
                metrics,
                "slatedb.object_store_cache.cache_bytes",
            ),
            persistent_cache_evictions: plain_counter(
                metrics,
                "slatedb.object_store_cache.evicted_keys",
            ),
            persistent_cache_evicted_bytes: plain_counter(
                metrics,
                "slatedb.object_store_cache.evicted_bytes",
            ),
        },
    )
}

/// Whether `stats` are what metrics come to: none where they do not add up.
pub open spec fn stats_from(entries: Seq<MetricEntry>, stats: Option<CacheStats>) -> bool {
    stats == if accesses_fit(entries) {
        Some(stats_in(entries))
    } else {
        None
    }
}

/// The statistics of caches that nobody has used.
pub open spec fn no_accesses() -> CacheStats {
    CacheStats {
        block_cache_hits: 0,
        block_cache_misses: 0,
        metadata_cache_hits: 0,
        metadata_cache_misses: 0,
        persistent_cache_hits: 0,
        persistent_cache_misses: 0,
        persistent_cache_entries: 0,
        persistent_cache_size_bytes: 0,
        persistent_cache_evictions: 0,
        persistent_cache_evicted_bytes: 0,
    }
}

/// Whether `stats` are what the metrics come to that SlateDB had counted at some
/// time.
pub open spec fn are_stats_of(counted: CacheMetrics, stats: Option<CacheStats>) -> bool {
    exists|metrics: Metrics| #[trigger]
        held_by(*counted.counted_into(), metrics) && stats_from(metrics_in(metrics), stats)
}

/// Where SlateDB counts what its caches do.
pub struct CacheMetrics {
    recorder: Arc<DefaultMetricsRecorder>,
}

impl CacheMetrics {
    /// Nothing counted yet: the metrics to begin with are none, and come to
    /// statistics that are all zero.
    pub fn new() -> (r: Self)
        ensures
            held_at_first(*r.counted_into()) == Seq::<MetricEntry>::empty(),
            stats_from(held_at_first(*r.counted_into()), Some(no_accesses())),
    {
        CacheMetrics { recorder: Arc::new(new_recorder()) }
    }

    /// The recorder that SlateDB is to count into.
    pub closed spec fn counted_into(self) -> Arc<DefaultMetricsRecorder> {
        self.recorder
    }

    /// Hands the recorder to SlateDB.
    pub fn recorder(&self) -> (r: Arc<DefaultMetricsRecorder>)
        ensures
            r == self.counted_into(),
    {
        Arc::clone(&self.recorder)
    }

    /// The statistics as of now. Whatever has been counted, they are what
    /// [`cache_stats`] reads out of it.
    pub fn stats(&self) -> (r: Option<CacheStats>)
        ensures
            are_stats_of(*self, r),
    {
        let metrics = snapshot(&self.recorder);
        let stats = cache_stats(&metrics);
        assert(held_by(*self.counted_into(), metrics) && stats_from(metrics_in(metrics), stats));
        stats
    }
}

/// Whether the first metric of a name with exactly these labels is the `i`th.
pub open spec fn is_first(
    entries: Seq<MetricEntry>,
    name: Seq<char>,
    labels: Labels,
    i: int,
) -> bool {
    &&& 0 <= i < entries.len()
    &&& entries[i].name == name
    &&& entries[i].labels == labels
    &&& forall|j: int|
        0 <= j < i ==> !((#[trigger] entries[j]).name == name && entries[j].labels == labels)
}

/// Whether there is no metric of a name with exactly these labels.
pub open spec fn is_absent(entries: Seq<MetricEntry>, name: Seq<char>, labels: Labels) -> bool {
    forall|j: int|
        0 <= j < entries.len() ==> !((#[trigger] entries[j]).name == name && entries[j].labels
            == labels)
}

proof fn lemma_first_reading(
    entries: Seq<MetricEntry>,
    name: Seq<char>,
    labels: Labels,
    i: int,
)
    ensures
        is_first(entries, name, labels, i) ==> reading_of(entries, name, labels) == Some(
            entries[i].reading,
        ),
        is_absent(entries, name, labels) ==> reading_of(entries, name, labels) is None,
    decreases entries.len(),
{
    if entries.len() > 0 {
        let rest = entries.drop_first();
        if is_first(entries, name, labels, i) && i > 0 {
            assert(!(entries[0].name == name && entries[0].labels == labels));
            assert forall|j: int| 0 <= j < i - 1 implies !((#[trigger] rest[j]).name == name
                && rest[j].labels == labels) by {
                assert(rest[j] == entries[j + 1]);
            }
            assert(rest[i - 1] == entries[i]);
        }
        if is_absent(entries, name, labels) {
            assert(!(entries[0].name == name && entries[0].labels == labels));
            assert forall|j: int| 0 <= j < rest.len() implies !((#[trigger] rest[j]).name == name
                && rest[j].labels == labels) by {
                assert(rest[j] == entries[j + 1]);
            }
        }
        lemma_first_reading(rest, name, labels, i - 1);
    }
}

/// Whether a counter stands at `count`: the first metric of its name and labels says so,
/// or there is none and the count is zero.
pub open spec fn counts_to(
    entries: Seq<MetricEntry>,
    name: Seq<char>,
    labels: Labels,
    count: u64,
) -> bool {
    ||| exists|i: int| #[trigger]
        is_first(entries, name, labels, i) && entries[i].reading == MetricReading::Counter(count)
    ||| is_absent(entries, name, labels) && count == 0
}

/// Whether a gauge shows `value`: the first metric of its name and labels does, or there
/// is none and the value is zero.
pub open spec fn shows(
    entries: Seq<MetricEntry>,
    name: Seq<char>,
    labels: Labels,
    value: i64,
) -> bool {
    ||| exists|i: int| #[trigger]
        is_first(entries, name, labels, i) && entries[i].reading == MetricReading::Gauge(value)
    ||| is_absent(entries, name, labels) && value == 0
}

proof fn lemma_counts_to(
    entries: Seq<MetricEntry>,
    name: Seq<char>,
    labels: Labels,
    count: u64,
)
    requires
        counts_to(entries, name, labels, count),
    ensures
        counter_in(entries, name, labels) == count,
{
    if is_absent(entries, name, labels) {
        lemma_first_reading(entries, name, labels, 0);
    } else {
        let i = choose|i: int| #[trigger]
            is_first(entries, name, labels, i) && entries[i].reading == MetricReading::Counter(
                count,
            );
        lemma_first_reading(entries, name, labels, i);
    }
}

proof fn lemma_shows(entries: Seq<MetricEntry>, name: Seq<char>, labels: Labels, value: i64)
    requires
        shows(entries, name, labels, value),
    ensures
        gauge_in(entries, name, labels) == if value >= 0 {
            value as int
        } else {
            0
        },
{
    if is_absent(entries, name, labels) {
        lemma_first_reading(entries, name, labels, 0);
    } else {
        let i = choose|i: int| #[trigger]
            is_first(entries, name, labels, i) && entries[i].reading == MetricReading::Gauge(value);
        lemma_first_reading(entries, name, labels, i);
    }
}

/// The statistics of the in-memory caches report what was counted: for blocks the hits
/// and misses of data blocks, and for metadata those of filters, indices and stats
/// together. There are statistics exactly if those sums can be held.
pub proof fn memory_cache_statistics_report_what_was_counted(
    entries: Seq<MetricEntry>,
    stats: Option<CacheStats>,
    block: (u64, u64),
    filter: (u64, u64),
    index: (u64, u64),
    summary: (u64, u64),
)
    requires
        stats_from(entries, stats),
        ({
            let name = "slatedb.db_cache.access_count"@;
            let hit = ("result"@, "hit"@);
            let miss = ("result"@, "miss"@);
            let blocks = ("entry_kind"@, "data_block"@);
            let filters = ("entry_kind"@, "filter"@);
            let indices = ("entry_kind"@, "index"@);
            let summaries = ("entry_kind"@, "stats"@);
            &&& counts_to(entries, name, seq![blocks, hit].to_multiset(), block.0)
            &&& counts_to(entries, name, seq![blocks, miss].to_multiset(), block.1)
            &&& counts_to(entries, name, seq![filters, hit].to_multiset(), filter.0)
            &&& counts_to(entries, name, seq![filters, miss].to_multiset(), filter.1)
            &&& counts_to(entries, name, seq![indices, hit].to_multiset(), index.0)
            &&& counts_to(entries, name, seq![indices, miss].to_multiset(), index.1)
            &&& counts_to(entries, name, seq![summaries, hit].to_multiset(), summary.0)
            &&& counts_to(entries, name, seq![summaries, miss].to_multiset(), summary.1)
        }),
    ensures
        stats is Some <==> filter.0 + index.0 + summary.0 <= u64::MAX && filter.1 + index.1
            + summary.1 <= u64::MAX,
        stats matches Some(stats) ==> {
            &&& stats.block_cache_hits == block.0
            &&& stats.block_cache_misses == block.1
            &&& stats.metadata_cache_hits == filter.0 + index.0 + summary.0
            &&& stats.metadata_cache_misses == filter.1 + index.1 + summary.1
        },
{
    let name = "slatedb.db_cache.access_count"@;
    let hit = ("result"@, "hit"@);
    let miss = ("result"@, "miss"@);
    let blocks = ("entry_kind"@, "data_block"@);
    let filters = ("entry_kind"@, "filter"@);
    let indices = ("entry_kind"@, "index"@);
    let summaries = ("entry_kind"@, "stats"@);
    lemma_counts_to(entries, name, seq![blocks, hit].to_multiset(), block.0);
    lemma_counts_to(entries, name, seq![blocks, miss].to_multiset(), block.1);
    lemma_counts_to(entries, name, seq![filters, hit].to_multiset(), filter.0);
    lemma_counts_to(entries, name, seq![filters, miss].to_multiset(), filter.1);
    lemma_counts_to(entries, name, seq![indices, hit].to_multiset(), index.0);
    lemma_counts_to(entries, name, seq![indices, miss].to_multiset(), index.1);
    lemma_counts_to(entries, name, seq![summaries, hit].to_multiset(), summary.0);
    lemma_counts_to(entries, name, seq![summaries, miss].to_multiset(), summary.1);
}

/// The statistics of the persistent cache report what was counted and measured: the
/// parts that were found, those that were asked for and not found, what has been
/// evicted, and how many entries and bytes the cache holds.
pub proof fn persistent_cache_statistics_report_what_was_counted(
    entries: Seq<MetricEntry>,
    stats: CacheStats,
    found: u64,
    asked: u64,
    evicted: u64,
    evicted_bytes: u64,
    held: i64,
    held_bytes: i64,
)
    requires
        stats_from(entries, Some(stats)),
        ({
            let none = Multiset::<(Seq<char>, Seq<char>)>::empty();
            &&& counts_to(entries, "slatedb.object_store_cache.part_hit_count"@, none, found)
            &&& counts_to(entries, "slatedb.object_store_cache.part_access_count"@, none, asked)
            &&& counts_to(entries, "slatedb.object_store_cache.evicted_keys"@, none, evicted)
            &&& counts_to(
                entries,
                "slatedb.object_store_cache.evicted_bytes"@,
                none,
                evicted_bytes,
            )
            &&& shows(entries, "slatedb.object_store_cache.cache_keys"@, none, held)
            &&& shows(entries, "slatedb.object_store_cache.cache_bytes"@, none, held_bytes)
        }),
    ensures
        stats.persistent_cache_hits == found,
        found <= asked ==> stats.persistent_cache_hits + stats.persistent_cache_misses == asked,
        found > asked ==> stats.persistent_cache_misses == 0,
        stats.persistent_cache_evictions == evicted,
        stats.persistent_cache_evicted_bytes == evicted_bytes,
        held >= 0 ==> stats.persistent_cache_entries == held,
        held < 0 ==> stats.persistent_cache_entries == 0,
        held_bytes >= 0 ==> stats.persistent_cache_size_bytes == held_bytes,
        held_bytes < 0 ==> stats.persistent_cache_size_bytes == 0,
{
    let none = Multiset::<(Seq<char>, Seq<char>)>::empty();
    lemma_counts_to(entries, "slatedb.object_store_cache.part_hit_count"@, none, found);
    lemma_counts_to(entries, "slatedb.object_store_cache.part_access_count"@, none, asked);
    lemma_counts_to(entries, "slatedb.object_store_cache.evicted_keys"@, none, evicted);
    lemma_counts_to(
        entries,
        "slatedb.object_store_cache.evicted_bytes"@,
        none,
        evicted_bytes,
    );
    lemma_shows(entries, "slatedb.object_store_cache.cache_keys"@, none, held);
    lemma_shows(entries, "slatedb.object_store_cache.cache_bytes"@, none, held_bytes);
}

/// An in-memory cache is planned exactly if it has room, and is made with the room it
/// was given and the shards that were asked for, or as many as the default says.
pub proof fn memory_caches_are_made_as_configured(
    max_capacity: u64,
    shards: Option<usize>,
    default_shards: usize,
)
    ensures
        ({
            let plan = memory_cache(max_capacity, shards);
            let made = planned_setup(plan, default_shards);
            &&& plan is Some <==> max_capacity > 0
            &&& made is Some <==> max_capacity > 0
            &&& max_capacity > 0 ==> made->0.max_capacity == max_capacity
            &&& max_capacity > 0 ==> (shards matches Some(n) ==> made->0.shards == n)
            &&& max_capacity > 0 && shards is None ==> made->0.shards == default_shards
            &&& max_capacity == 0 ==> can_be_made(plan, default_shards)
            &&& max_capacity > 0 && shards is None ==> (can_be_made(plan, default_shards)
                <==> 0 < default_shards && default_shards * 1024 <= isize::MAX)
            &&& max_capacity > 0 ==> (shards matches Some(n) ==> (can_be_made(plan, default_shards)
                <==> 0 < n && n * 1024 <= isize::MAX))
        }),
{
}

/// By default both in-memory caches have room, nothing is kept on disk, and what would
/// be kept there has a size and parts that can be used.
pub proof fn the_default_caches_in_memory_alone()
    ensures
        ({
            let config = default_config();
            &&& config.block_cache_size_bytes == 512 * 1024 * 1024
            &&& config.metadata_cache_size_bytes == 128 * 1024 * 1024
            &&& config.cache_shards is None
            &&& config.persistent_cache_path is None
            &&& 0 < config.persistent_cache_size_bytes <= 16 * 1024 * 1024 * 1024
            &&& config.persistent_cache_size_bytes == 16 * 1024 * 1024 * 1024
                || config.persistent_cache_size_bytes == usize::MAX
            &&& config.persistent_cache_part_size_bytes == 4 * 1024 * 1024
            &&& !config.persistent_cache_on_flush
            &&& !config.persistent_cache_on_compaction
        }),
{
}

} // verus!

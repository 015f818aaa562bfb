use vstd::prelude::*;

use vstd::string::StringExecFns;

use crate::errors::ExecError;
use crate::text::str_equal;

verus! {

/// Hard floor for a context's memory ceiling: 256 MiB.
pub const MIN_MEMORY_BYTES: usize = 256 * 1024 * 1024;

/// Hard floor a resolved partition count falls back to when it comes out zero.
pub const MIN_PARTITION_COUNT: usize = 2;

/// Rows per batch handed to the columnar scanner.
pub const BATCH_SIZE: usize = 8 * 1024;

/// Process-wide tunables every execution context is built from.
pub struct EngineConfig {
    /// Default parallelism derived from the machine's CPU count.
    pub cpu_num: usize,
    /// Floor applied to any caller-requested partition count.
    pub min_partition_num: usize,
    /// Nominal memory ceiling for one context, in bytes.
    pub memory_max_size: usize,
    /// Memory-pool strategy selection.
    pub memory_pool: String,
    /// Turns bloom-filter consultation on during reads.
    pub bloom_filter_enabled: bool,
    /// Force-disables bloom filters on search even when enabled.
    pub bloom_filter_disabled_on_search: bool,
    /// Capacity of the shared file-statistics cache; zero disables it.
    pub file_stat_cache_max_entries: usize,
    /// Collapses hourly distinct-value observations during compaction.
    pub distinct_values_hourly: bool,
    /// Enables the alternative join-matching planner override.
    pub feature_join_match_one_enabled: bool,
    /// Applies the workgroup CPU allowance to partition counts.
    pub cpu_limit_enabled: bool,
    /// Name of the time column every stream carries.
    pub timestamp_column: String,
}

/// Admission-control strategy of a context's memory pool.
#[derive(Debug, Clone, Copy, PartialEq, Eq, Structural)]
pub enum MemoryPoolType {
    /// No admission control.
    Unbounded,
    /// Hard reject above the ceiling.
    StrictCeiling,
    /// Cooperative reclamation with spill-to-disk fallback.
    FairSpill,
}

/// Which strategy a configuration string selects; anything else is a static
/// misconfiguration.
pub open spec fn spec_parse_memory_pool(s: Seq<char>) -> Result<MemoryPoolType, ExecError> {
    if s == "unbounded"@ {
        Ok(MemoryPoolType::Unbounded)
    } else if s == "strict-ceiling"@ {
        Ok(MemoryPoolType::StrictCeiling)
    } else if s == "fair-spill"@ {
        Ok(MemoryPoolType::FairSpill)
    } else {
        Err(ExecError::InvalidConfiguration)
    }
}

/// Parses the memory-pool strategy selection.
pub fn parse_memory_pool(s: &str) -> (r: Result<MemoryPoolType, ExecError>)
    ensures
        r == spec_parse_memory_pool(s@),
{
    if str_equal(s, "unbounded") {
        Ok(MemoryPoolType::Unbounded)
    } else if str_equal(s, "strict-ceiling") {
        Ok(MemoryPoolType::StrictCeiling)
    } else if str_equal(s, "fair-spill") {
        Ok(MemoryPoolType::FairSpill)
    } else {
        Err(ExecError::InvalidConfiguration)
    }
}

/// Partition count before the final floor: zero means "use the machine
/// default", anything else is clamped to the configured minimum.
pub open spec fn spec_base_partitions(requested: int, cpu_num: int, min_partition: int) -> int {
    if requested == 0 {
        cpu_num
    } else if min_partition > requested {
        min_partition
    } else {
        requested
    }
}

/// A partition count that came out zero falls back to the hard floor.
pub open spec fn spec_floor_partitions(t: int) -> int {
    if t == 0 {
        MIN_PARTITION_COUNT as int
    } else {
        t
    }
}

/// The memory ceiling never drops below the 256 MiB floor.
pub open spec fn spec_floor_memory(m: int) -> int {
    if m < MIN_MEMORY_BYTES as int {
        MIN_MEMORY_BYTES as int
    } else {
        m
    }
}

/// Raises a memory ceiling to the floor.
pub fn floor_memory(memory_limit: usize) -> (r: usize)
    ensures
        r == spec_floor_memory(memory_limit as int),
        r >= MIN_MEMORY_BYTES,
{
    if memory_limit < MIN_MEMORY_BYTES {
        MIN_MEMORY_BYTES
    } else {
        memory_limit
    }
}

/// The engine-facing knobs of one session, fully resolved.
pub struct SessionSettings {
    /// Rows per batch.
    pub batch_size: usize,
    /// Resolved partition count, never zero.
    pub target_partitions: usize,
    /// Information-schema introspection is available to queries.
    pub information_schema: bool,
    /// Listing a table's URL prefix does not descend into subdirectories.
    pub recurse_subdirectories: bool,
    /// SQL dialect the parser accepts.
    pub dialect: String,
    /// Bloom-filter consultation on read: forced off, forced on, or engine
    /// default when neither switch is set.
    pub bloom_filter_on_read: Option<bool>,
    /// Split file groups by their time statistics, set only for time-sorted
    /// output.
    pub split_file_groups_by_statistics: bool,
    /// The planner trusts its own schema derivation for aggregates.
    pub skip_aggregate_schema_check: bool,
}

/// The bloom-filter switch the settings carry: the force-disable switch wins
/// over the enable switch; with neither set the engine default stands.
pub open spec fn spec_bloom_on_read(enabled: bool, disabled_on_search: bool) -> Option<bool> {
    if disabled_on_search {
        Some(false)
    } else if enabled {
        Some(true)
    } else {
        None
    }
}

/// Resolves the session settings for one request.
///
/// A requested partition count of zero falls back to the machine default,
/// any other request is clamped to the configured minimum, and a count that
/// still comes out zero is raised to the hard floor — the result is never
/// zero.
pub fn create_session_config(cfg: &EngineConfig, sorted_by_time: bool, target_partitions: usize) -> (s: SessionSettings)
    ensures
        s.batch_size == BATCH_SIZE,
        s.target_partitions == spec_floor_partitions(
            spec_base_partitions(
                target_partitions as int,
                cfg.cpu_num as int,
                cfg.min_partition_num as int,
            ),
        ),
        s.target_partitions >= 1,
        s.information_schema,
        !s.recurse_subdirectories,
        s.dialect@ == "PostgreSQL"@,
        s.bloom_filter_on_read == spec_bloom_on_read(
            cfg.bloom_filter_enabled,
            cfg.bloom_filter_disabled_on_search,
        ),
        s.split_file_groups_by_statistics == sorted_by_time,
        s.skip_aggregate_schema_check,
{
    let base: usize = if target_partitions == 0 {
        cfg.cpu_num
    } else if cfg.min_partition_num > target_partitions {
        cfg.min_partition_num
    } else {
        target_partitions
    };
    let resolved: usize = if base == 0 {
        MIN_PARTITION_COUNT
    } else {
        base
    };
    let bloom: Option<bool> = if cfg.bloom_filter_disabled_on_search {
        Some(false)
    } else if cfg.bloom_filter_enabled {
        Some(true)
    } else {
        None
    };
    SessionSettings {
        batch_size: BATCH_SIZE,
        target_partitions: resolved,
        information_schema: true,
        recurse_subdirectories: false,
        dialect: String::from_str("PostgreSQL"),
        bloom_filter_on_read: bloom,
        split_file_groups_by_statistics: sorted_by_time,
        skip_aggregate_schema_check: true,
    }
}

} // verus!

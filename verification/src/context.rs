use vstd::prelude::*;
use vstd::string::StringExecFns;

use crate::errors::ExecError;
use crate::governor::get_cpu_and_mem_limit;
use crate::governor::spec_scaled_memory;
use crate::governor::spec_scaled_partitions;
use crate::governor::spec_valid_allowance;
use crate::governor::WorkGroupQuery;
use crate::settings::create_session_config;
use crate::settings::floor_memory;
use crate::settings::parse_memory_pool;
use crate::settings::spec_base_partitions;
use crate::settings::spec_bloom_on_read;
use crate::settings::spec_floor_memory;
use crate::settings::spec_floor_partitions;
use crate::settings::spec_parse_memory_pool;
use crate::settings::EngineConfig;
use crate::settings::MemoryPoolType;
use crate::settings::SessionSettings;
use crate::settings::BATCH_SIZE;
use crate::settings::MIN_MEMORY_BYTES;
use crate::storage::StorageKind;
use crate::storage::StoreRegistry;

verus! {

/// The runtime half of a context: storage fabric, statistics cache, memory
/// pool.
pub struct RuntimePlan {
    /// Scheme-to-backend routing for this context.
    pub registry: StoreRegistry,
    /// Whether the global file-statistics cache is attached.
    pub use_stats_cache: bool,
    /// Memory ceiling in bytes, never below the floor.
    pub memory_size: usize,
    /// Admission-control strategy of the memory pool.
    pub pool: MemoryPoolType,
}

/// Builds the runtime half of a context: the three ephemeral tiers and the
/// durable store routed by scheme, the shared statistics cache when a
/// capacity is configured, and the memory pool raised to the 256 MiB floor.
///
/// Fails with `InvalidConfiguration` exactly when the configured memory-pool
/// strategy does not parse.
pub fn create_runtime_env(cfg: &EngineConfig, memory_limit: usize) -> (r: Result<
    RuntimePlan,
    ExecError,
>)
    ensures
        r is Ok <==> spec_parse_memory_pool(cfg.memory_pool@) is Ok,
        r is Err ==> r == Err::<RuntimePlan, ExecError>(ExecError::InvalidConfiguration),
        r matches Ok(p) ==> {
            &&& p.registry.spec_resolve("memory"@) == Some(StorageKind::Memory)
            &&& p.registry.spec_resolve("wal"@) == Some(StorageKind::Wal)
            &&& p.registry.spec_resolve("tmpfs"@) == Some(StorageKind::Tmpfs)
            &&& p.registry.spec_resolve("file"@) == Some(StorageKind::Remote)
            &&& p.use_stats_cache == (cfg.file_stat_cache_max_entries > 0)
            &&& p.memory_size == spec_floor_memory(memory_limit as int)
            &&& p.memory_size >= MIN_MEMORY_BYTES
            &&& Ok::<MemoryPoolType, ExecError>(p.pool) == spec_parse_memory_pool(
                cfg.memory_pool@,
            )
        },
{
    proof {
        reveal_strlit("file");
        reveal_strlit("memory");
        reveal_strlit("wal");
        reveal_strlit("tmpfs");
        assert("file"@.len() == 4 && "memory"@.len() == 6 && "wal"@.len() == 3 && "tmpfs"@.len()
            == 5);
    }
    let mut registry = StoreRegistry::new();
    registry.register(String::from_str("file"), StorageKind::Remote);
    registry.register(String::from_str("memory"), StorageKind::Memory);
    registry.register(String::from_str("wal"), StorageKind::Wal);
    registry.register(String::from_str("tmpfs"), StorageKind::Tmpfs);
    let use_stats_cache = cfg.file_stat_cache_max_entries > 0;
    let memory_size = floor_memory(memory_limit);
    let pool = match parse_memory_pool(cfg.memory_pool.as_str()) {
        Ok(p) => p,
        Err(e) => {
            return Err(e);
        },
    };
    Ok(RuntimePlan { registry, use_stats_cache, memory_size, pool })
}

/// A fully resolved execution context, ready to hand to the engine.
pub struct ContextPlan {
    /// The session configuration.
    pub session: SessionSettings,
    /// The runtime environment.
    pub runtime: RuntimePlan,
    /// Extra logical rewrite rules were supplied, so the fixed join-reorder
    /// physical rule is appended as well.
    pub with_join_reorder: bool,
    /// The alternative join-matching planner override is spliced in.
    pub with_custom_planner: bool,
}

/// Constructs one per-request execution context.
///
/// The workgroup allowance is applied first (memory always, partitions only
/// under CPU limiting), then the partition count is resolved against the
/// machine default and the floors. Construction succeeds if and only if the
/// workgroup lookup did not fail and the memory-pool strategy parses; the
/// resulting partition count is never zero and the memory ceiling never sits
/// below the 256 MiB floor.
pub fn prepare_datafusion_context(
    cfg: &EngineConfig,
    work_group: WorkGroupQuery,
    has_extra_optimizer_rules: bool,
    sorted_by_time: bool,
    target_partitions: usize,
) -> (r: Result<ContextPlan, ExecError>)
    requires
        spec_valid_allowance(work_group),
        target_partitions * 100 <= usize::MAX,
        cfg.memory_max_size * 100 <= usize::MAX,
    ensures
        r is Ok <==> (!(work_group is LookupFailed) && spec_parse_memory_pool(
            cfg.memory_pool@,
        ) is Ok),
        work_group is LookupFailed ==> r == Err::<ContextPlan, ExecError>(
            ExecError::ResourceResolutionFailure,
        ),
        !(work_group is LookupFailed) && spec_parse_memory_pool(cfg.memory_pool@) is Err ==> r
            == Err::<ContextPlan, ExecError>(ExecError::InvalidConfiguration),
        r matches Ok(p) ==> {
            &&& p.session.target_partitions == spec_floor_partitions(
                spec_base_partitions(
                    spec_scaled_partitions(
                        work_group,
                        target_partitions as int,
                        cfg.cpu_limit_enabled,
                    ),
                    cfg.cpu_num as int,
                    cfg.min_partition_num as int,
                ),
            )
            &&& p.session.target_partitions >= 1
            &&& p.session.batch_size == BATCH_SIZE
            &&& p.session.information_schema
            &&& !p.session.recurse_subdirectories
            &&& p.session.dialect@ == "PostgreSQL"@
            &&& p.session.bloom_filter_on_read == spec_bloom_on_read(
                cfg.bloom_filter_enabled,
                cfg.bloom_filter_disabled_on_search,
            )
            &&& p.session.split_file_groups_by_statistics == sorted_by_time
            &&& p.session.skip_aggregate_schema_check
            &&& p.runtime.memory_size == spec_floor_memory(
                spec_scaled_memory(work_group, cfg.memory_max_size as int),
            )
            &&& p.runtime.memory_size >= MIN_MEMORY_BYTES
            &&& Ok::<MemoryPoolType, ExecError>(p.runtime.pool) == spec_parse_memory_pool(
                cfg.memory_pool@,
            )
            &&& p.runtime.use_stats_cache == (cfg.file_stat_cache_max_entries > 0)
            &&& p.runtime.registry.spec_resolve("memory"@) == Some(StorageKind::Memory)
            &&& p.runtime.registry.spec_resolve("wal"@) == Some(StorageKind::Wal)
            &&& p.runtime.registry.spec_resolve("tmpfs"@) == Some(StorageKind::Tmpfs)
            &&& p.runtime.registry.spec_resolve("file"@) == Some(StorageKind::Remote)
            &&& p.with_join_reorder == has_extra_optimizer_rules
            &&& p.with_custom_planner == cfg.feature_join_match_one_enabled
        },
{
    let scaled = match get_cpu_and_mem_limit(
        work_group,
        target_partitions,
        cfg.memory_max_size,
        cfg.cpu_limit_enabled,
    ) {
        Ok(pair) => pair,
        Err(e) => {
            return Err(e);
        },
    };
    let session = create_session_config(cfg, sorted_by_time, scaled.0);
    let runtime = match create_runtime_env(cfg, scaled.1) {
        Ok(p) => p,
        Err(e) => {
            return Err(e);
        },
    };
    Ok(
        ContextPlan {
            session,
            runtime,
            with_join_reorder: has_extra_optimizer_rules,
            with_custom_planner: cfg.feature_join_match_one_enabled,
        },
    )
}

} // verus!

use search_exec::context::{create_runtime_env, prepare_datafusion_context};
use search_exec::errors::ExecError;
use search_exec::governor::{get_cpu_and_mem_limit, WorkGroupQuery};
use search_exec::settings::{
    create_session_config, floor_memory, parse_memory_pool, EngineConfig, MemoryPoolType,
    BATCH_SIZE, MIN_MEMORY_BYTES,
};
use search_exec::storage::StorageKind;

fn test_config() -> EngineConfig {
    EngineConfig {
        cpu_num: 8,
        min_partition_num: 2,
        memory_max_size: 2 * 1024 * 1024 * 1024,
        memory_pool: String::from("fair-spill"),
        bloom_filter_enabled: false,
        bloom_filter_disabled_on_search: false,
        file_stat_cache_max_entries: 128,
        distinct_values_hourly: true,
        feature_join_match_one_enabled: false,
        cpu_limit_enabled: true,
        timestamp_column: String::from("_timestamp"),
    }
}

#[test]
fn partition_count_is_never_zero() {
    let mut cfg = test_config();
    // requested zero falls back to the machine default
    let s = create_session_config(&cfg, false, 0);
    assert_eq!(s.target_partitions, 8);
    // requested below the minimum is clamped
    let s = create_session_config(&cfg, false, 1);
    assert_eq!(s.target_partitions, 2);
    // machine default of zero still yields the hard floor
    cfg.cpu_num = 0;
    cfg.min_partition_num = 0;
    let s = create_session_config(&cfg, false, 0);
    assert_eq!(s.target_partitions, 2);
}

#[test]
fn memory_ceiling_never_below_floor() {
    assert_eq!(floor_memory(0), MIN_MEMORY_BYTES);
    assert_eq!(floor_memory(MIN_MEMORY_BYTES - 1), MIN_MEMORY_BYTES);
    assert_eq!(floor_memory(MIN_MEMORY_BYTES + 7), MIN_MEMORY_BYTES + 7);
}

#[test]
fn session_settings_are_fixed() {
    let cfg = test_config();
    let s = create_session_config(&cfg, true, 4);
    assert_eq!(s.batch_size, BATCH_SIZE);
    assert_eq!(s.batch_size, 8192);
    assert!(s.information_schema);
    assert!(!s.recurse_subdirectories);
    assert_eq!(s.dialect, "PostgreSQL");
    assert!(s.split_file_groups_by_statistics);
    assert!(s.skip_aggregate_schema_check);
    let s = create_session_config(&cfg, false, 4);
    assert!(!s.split_file_groups_by_statistics);
}

#[test]
fn bloom_filter_disable_wins() {
    let mut cfg = test_config();
    let s = create_session_config(&cfg, false, 4);
    assert_eq!(s.bloom_filter_on_read, None);
    cfg.bloom_filter_enabled = true;
    let s = create_session_config(&cfg, false, 4);
    assert_eq!(s.bloom_filter_on_read, Some(true));
    cfg.bloom_filter_disabled_on_search = true;
    let s = create_session_config(&cfg, false, 4);
    assert_eq!(s.bloom_filter_on_read, Some(false));
}

#[test]
fn memory_pool_strings() {
    assert_eq!(parse_memory_pool("unbounded"), Ok(MemoryPoolType::Unbounded));
    assert_eq!(parse_memory_pool("strict-ceiling"), Ok(MemoryPoolType::StrictCeiling));
    assert_eq!(parse_memory_pool("fair-spill"), Ok(MemoryPoolType::FairSpill));
    assert_eq!(parse_memory_pool("greedy"), Err(ExecError::InvalidConfiguration));
    assert_eq!(parse_memory_pool(""), Err(ExecError::InvalidConfiguration));
    assert_eq!(parse_memory_pool("Fair-Spill"), Err(ExecError::InvalidConfiguration));
}

#[test]
fn governor_scales_cpu_and_memory() {
    // cpu 50%, mem 80%: partitions 8 -> 4, memory 1000 -> 800
    let q = WorkGroupQuery::Resolved { cpu_percent: 50, mem_percent: 80 };
    assert_eq!(get_cpu_and_mem_limit(q, 8, 1000, true), Ok((4, 800)));
    // with CPU limiting disabled the partitions stay at 8
    assert_eq!(get_cpu_and_mem_limit(q, 8, 1000, false), Ok((8, 800)));
}

#[test]
fn governor_passes_through_absent_and_unknown() {
    assert_eq!(get_cpu_and_mem_limit(WorkGroupQuery::Absent, 8, 1000, true), Ok((8, 1000)));
    assert_eq!(get_cpu_and_mem_limit(WorkGroupQuery::UnknownClass, 8, 1000, true), Ok((8, 1000)));
    assert_eq!(
        get_cpu_and_mem_limit(WorkGroupQuery::LookupFailed, 8, 1000, true),
        Err(ExecError::ResourceResolutionFailure)
    );
}

#[test]
fn runtime_env_registers_all_tiers() {
    let cfg = test_config();
    let plan = create_runtime_env(&cfg, 0).unwrap();
    assert_eq!(plan.registry.resolve_kind("memory"), Ok(StorageKind::Memory));
    assert_eq!(plan.registry.resolve_kind("wal"), Ok(StorageKind::Wal));
    assert_eq!(plan.registry.resolve_kind("tmpfs"), Ok(StorageKind::Tmpfs));
    assert_eq!(plan.registry.resolve_kind("file"), Ok(StorageKind::Remote));
    assert_eq!(
        plan.registry.resolve_kind("s3"),
        Err(ExecError::UnsupportedStorageBackend)
    );
    assert!(plan.use_stats_cache);
    assert_eq!(plan.memory_size, MIN_MEMORY_BYTES);
    assert_eq!(plan.pool, MemoryPoolType::FairSpill);
}

#[test]
fn context_construction_errors() {
    let mut cfg = test_config();
    let r = prepare_datafusion_context(&cfg, WorkGroupQuery::LookupFailed, false, true, 4);
    assert_eq!(r.err(), Some(ExecError::ResourceResolutionFailure));
    cfg.memory_pool = String::from("elastic");
    let r = prepare_datafusion_context(&cfg, WorkGroupQuery::Absent, false, true, 4);
    assert_eq!(r.err(), Some(ExecError::InvalidConfiguration));
}

#[test]
fn context_construction_scales_and_floors() {
    let cfg = test_config();
    let q = WorkGroupQuery::Resolved { cpu_percent: 50, mem_percent: 80 };
    let plan = prepare_datafusion_context(&cfg, q, true, true, 8).unwrap();
    // 8 partitions scaled to 4, memory 2 GiB scaled to 1.6 GiB
    assert_eq!(plan.session.target_partitions, 4);
    assert_eq!(plan.runtime.memory_size, 2 * 1024 * 1024 * 1024 * 8 / 10);
    assert!(plan.session.target_partitions >= 1);
    assert!(plan.runtime.memory_size >= MIN_MEMORY_BYTES);
    assert!(plan.with_join_reorder);
    assert!(!plan.with_custom_planner);
    // scaling down to zero partitions falls back to the machine default
    let q = WorkGroupQuery::Resolved { cpu_percent: 1, mem_percent: 1 };
    let plan = prepare_datafusion_context(&cfg, q, false, false, 8).unwrap();
    assert_eq!(plan.session.target_partitions, 8);
    assert_eq!(plan.runtime.memory_size, MIN_MEMORY_BYTES);
}

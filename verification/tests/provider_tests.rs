use search_exec::errors::ExecError;
use search_exec::governor::WorkGroupQuery;
use search_exec::provider::{
    create_parquet_table, register_table, sorted_by_time_key, FileStage, SessionDesc,
};
use search_exec::schema::{normalize_timestamp, schema_key, ColumnType, FieldDef, SchemaDef};
use search_exec::settings::EngineConfig;
use search_exec::storage::{needs_staging, table_prefix, StorageKind, StoreRegistry};

fn test_config() -> EngineConfig {
    EngineConfig {
        cpu_num: 8,
        min_partition_num: 2,
        memory_max_size: 2 * 1024 * 1024 * 1024,
        memory_pool: String::from("strict-ceiling"),
        bloom_filter_enabled: true,
        bloom_filter_disabled_on_search: false,
        file_stat_cache_max_entries: 64,
        distinct_values_hourly: false,
        feature_join_match_one_enabled: false,
        cpu_limit_enabled: false,
        timestamp_column: String::from("_timestamp"),
    }
}

fn field(name: &str, t: ColumnType, nullable: bool) -> FieldDef {
    FieldDef { name: String::from(name), column_type: t, nullable }
}

fn log_schema(ts_nullable: bool) -> SchemaDef {
    SchemaDef {
        fields: vec![
            field("_timestamp", ColumnType::Int64, ts_nullable),
            field("level", ColumnType::Utf8, true),
            field("count", ColumnType::UInt64, false),
        ],
    }
}

#[test]
fn prefixes_are_deterministic_urls() {
    let p = table_prefix(StorageKind::Memory, "sess1", "k42").unwrap();
    assert_eq!(p, "memory:///sess1/schema=k42/");
    let p = table_prefix(StorageKind::Wal, "sess1", "k42").unwrap();
    assert_eq!(p, "wal:///sess1/schema=k42/");
    let p = table_prefix(StorageKind::Tmpfs, "sess1", "k42").unwrap();
    assert_eq!(p, "tmpfs:///sess1/");
    assert_eq!(
        table_prefix(StorageKind::Remote, "sess1", "k42").err(),
        Some(ExecError::UnsupportedStorageBackend)
    );
}

#[test]
fn staging_only_for_ephemeral_tiers() {
    assert!(needs_staging(StorageKind::Memory));
    assert!(needs_staging(StorageKind::Wal));
    assert!(!needs_staging(StorageKind::Tmpfs));
    assert!(!needs_staging(StorageKind::Remote));
}

#[test]
fn store_registry_is_idempotent() {
    let mut reg = StoreRegistry::new();
    assert_eq!(reg.resolve_kind("wal"), Err(ExecError::UnsupportedStorageBackend));
    reg.register(String::from("wal"), StorageKind::Wal);
    assert_eq!(reg.resolve_kind("wal"), Ok(StorageKind::Wal));
    // a second registration leaves the first binding in place
    reg.register(String::from("wal"), StorageKind::Memory);
    assert_eq!(reg.resolve_kind("wal"), Ok(StorageKind::Wal));
}

#[test]
fn nullable_timestamp_becomes_non_nullable_int64() {
    let cfg = test_config();
    let s = normalize_timestamp(&log_schema(true), &cfg.timestamp_column);
    assert_eq!(s.fields.len(), 3);
    assert_eq!(s.fields[0].name, "_timestamp");
    assert_eq!(s.fields[0].column_type, ColumnType::Int64);
    assert!(!s.fields[0].nullable);
    // the other fields pass through unchanged
    assert_eq!(s.fields[1].name, "level");
    assert_eq!(s.fields[1].column_type, ColumnType::Utf8);
    assert!(s.fields[1].nullable);
    // a non-nullable time column leaves the schema untouched
    let s = normalize_timestamp(&log_schema(false), &cfg.timestamp_column);
    assert_eq!(s.fields[0].column_type, ColumnType::Int64);
    assert!(!s.fields[0].nullable);
    assert!(s.fields[1].nullable);
}

#[test]
fn schema_key_encodes_the_field_list() {
    let key = schema_key(&log_schema(false));
    assert_eq!(key, "_timestamp#i64!;level#str?;count#u64!;");
    // identical layouts share a key, different layouts do not
    assert_eq!(schema_key(&log_schema(true)), schema_key(&log_schema(true)));
    assert_ne!(schema_key(&log_schema(true)), schema_key(&log_schema(false)));
}

#[test]
fn sort_key_must_be_time_descending() {
    assert!(sorted_by_time_key(&vec![(String::from("_timestamp"), true)], "_timestamp"));
    assert!(!sorted_by_time_key(&vec![(String::from("_timestamp"), false)], "_timestamp"));
    assert!(!sorted_by_time_key(&vec![(String::from("level"), true)], "_timestamp"));
    assert!(!sorted_by_time_key(
        &vec![(String::from("_timestamp"), true), (String::from("level"), true)],
        "_timestamp"
    ));
    assert!(!sorted_by_time_key(&vec![], "_timestamp"));
}

#[test]
fn unsupported_backend_stages_nothing() {
    let cfg = test_config();
    let session = SessionDesc {
        id: String::from("sess1"),
        storage_kind: StorageKind::Remote,
        target_partitions: 4,
    };
    let mut stage = FileStage::new();
    let files = vec![String::from("f1.parquet")];
    let r = create_parquet_table(
        &cfg,
        &session,
        &log_schema(false),
        &files,
        Vec::new(),
        true,
        WorkGroupQuery::Absent,
        true,
        None,
        Vec::new(),
        &mut stage,
    );
    assert_eq!(r.err(), Some(ExecError::UnsupportedStorageBackend));
    assert_eq!(stage.staged_count(), 0);
}

#[test]
fn memory_tier_stages_and_caches() {
    let cfg = test_config();
    let session = SessionDesc {
        id: String::from("sess1"),
        storage_kind: StorageKind::Memory,
        target_partitions: 4,
    };
    let mut stage = FileStage::new();
    let files = vec![String::from("f1.parquet"), String::from("f2.parquet")];
    let plan = create_parquet_table(
        &cfg,
        &session,
        &log_schema(false),
        &files,
        Vec::new(),
        true,
        WorkGroupQuery::Absent,
        true,
        None,
        Vec::new(),
        &mut stage,
    )
    .unwrap();
    assert_eq!(plan.file_extension, "parquet");
    assert_eq!(plan.target_partitions, 4);
    assert!(plan.collect_statistics);
    assert!(plan.attach_stats_cache);
    let hint = plan.sort_order.unwrap();
    assert_eq!(hint.column, "_timestamp");
    assert!(!hint.ascending);
    assert!(!hint.nulls_first);
    let key = schema_key(&log_schema(false));
    assert_eq!(plan.url_prefix, format!("memory:///sess1/schema={}/", key));
    assert_eq!(stage.staged_count(), 1);
}

#[test]
fn scratch_tier_skips_staging_and_cache() {
    let cfg = test_config();
    let session = SessionDesc {
        id: String::from("sess2"),
        storage_kind: StorageKind::Tmpfs,
        target_partitions: 0,
    };
    let mut stage = FileStage::new();
    let plan = create_parquet_table(
        &cfg,
        &session,
        &log_schema(false),
        &vec![String::from("f1.parquet")],
        Vec::new(),
        false,
        WorkGroupQuery::Absent,
        true,
        None,
        Vec::new(),
        &mut stage,
    )
    .unwrap();
    assert_eq!(plan.url_prefix, "tmpfs:///sess2/");
    assert!(!plan.attach_stats_cache);
    assert!(plan.sort_order.is_none());
    // requested zero resolves to the machine default
    assert_eq!(plan.target_partitions, 8);
    assert_eq!(stage.staged_count(), 0);
}

#[test]
fn repeated_registration_is_deterministic() {
    let cfg = test_config();
    let files = vec![String::from("a.parquet"), String::from("b.parquet")];
    let sort_key = vec![(String::from("_timestamp"), true)];
    let mut first_prefixes: Vec<String> = Vec::new();
    for _ in 0..2 {
        let session = SessionDesc {
            id: String::from("sess3"),
            storage_kind: StorageKind::Wal,
            target_partitions: 4,
        };
        let mut stage = FileStage::new();
        let t = register_table(
            &cfg,
            &session,
            &log_schema(true),
            String::from("tbl"),
            &files,
            Vec::new(),
            &sort_key,
            WorkGroupQuery::Absent,
            &mut stage,
        )
        .unwrap();
        assert_eq!(t.table_name, "tbl");
        assert!(t.context.session.split_file_groups_by_statistics);
        assert_eq!(stage.staged_count(), 1);
        // the nominal nullable time column is normalized in the provider schema
        assert_eq!(t.table.schema.fields[0].column_type, ColumnType::Int64);
        assert!(!t.table.schema.fields[0].nullable);
        first_prefixes.push(t.table.url_prefix.clone());
    }
    assert_eq!(first_prefixes[0], first_prefixes[1]);
}

use search_exec::compact::{compact_distinct, compact_index, compact_plain, Record};
use search_exec::registry::FunctionRegistry;
use search_exec::schema::{ColumnType, FieldDef, SchemaDef};
use search_exec::settings::EngineConfig;
use search_exec::errors::ExecError;
use search_exec::sqlgen::{merge_sql, merge_step, plan_merge, MergeAction, MergeEvent, StreamKind};
use search_exec::text::{str_equal, str_starts_with};

fn test_config(hourly: bool) -> EngineConfig {
    EngineConfig {
        cpu_num: 4,
        min_partition_num: 2,
        memory_max_size: 1024 * 1024 * 1024,
        memory_pool: String::from("unbounded"),
        bloom_filter_enabled: false,
        bloom_filter_disabled_on_search: false,
        file_stat_cache_max_entries: 0,
        distinct_values_hourly: hourly,
        feature_join_match_one_enabled: false,
        cpu_limit_enabled: false,
        timestamp_column: String::from("_timestamp"),
    }
}

fn field(name: &str, t: ColumnType, nullable: bool) -> FieldDef {
    FieldDef { name: String::from(name), column_type: t, nullable }
}

fn distinct_schema() -> SchemaDef {
    SchemaDef {
        fields: vec![
            field("_timestamp", ColumnType::Int64, false),
            field("count", ColumnType::UInt64, false),
            field("field_name", ColumnType::Utf8, false),
            field("field_value", ColumnType::Utf8, false),
        ],
    }
}

fn row(ts: i64, file_name: u64, deleted: bool, group_key: u64, count: u64) -> Record {
    Record { ts, file_name, deleted, group_key, count }
}

#[test]
fn index_stream_takes_the_reconciling_template() {
    let cfg = test_config(true);
    let sql = merge_sql(&cfg, StreamKind::Index, "idx", &distinct_schema());
    assert_eq!(
        sql,
        "SELECT * FROM tbl WHERE file_name NOT IN (SELECT file_name FROM tbl WHERE deleted \
         IS TRUE ORDER BY _timestamp DESC) ORDER BY _timestamp DESC"
    );
}

#[test]
fn distinct_stream_takes_the_rollup_template() {
    let cfg = test_config(true);
    let sql = merge_sql(&cfg, StreamKind::Metadata, "distinct_values_logs", &distinct_schema());
    assert_eq!(
        sql,
        "SELECT MIN(_timestamp) AS _timestamp, SUM(count) as count, field_name, field_value \
         FROM tbl GROUP BY field_name, field_value ORDER BY _timestamp DESC"
    );
}

#[test]
fn rollup_needs_flag_kind_and_prefix() {
    let plain = "SELECT * FROM tbl ORDER BY _timestamp DESC";
    // rollup disabled
    let cfg = test_config(false);
    assert_eq!(merge_sql(&cfg, StreamKind::Metadata, "distinct_values_logs", &distinct_schema()), plain);
    let cfg = test_config(true);
    // wrong stream kind
    assert_eq!(merge_sql(&cfg, StreamKind::Logs, "distinct_values_logs", &distinct_schema()), plain);
    // name without the prefix
    assert_eq!(merge_sql(&cfg, StreamKind::Metadata, "other_values", &distinct_schema()), plain);
}

#[test]
fn merge_job_asserts_sortedness() {
    let cfg = test_config(false);
    let job = plan_merge(&cfg, StreamKind::Logs, "default", &distinct_schema());
    assert!(job.sorted_by_time);
    assert_eq!(job.target_partitions, 4);
    assert_eq!(job.sql, "SELECT * FROM tbl ORDER BY _timestamp DESC");
}

#[test]
fn plain_compaction_only_reorders() {
    let rows = vec![row(3, 1, false, 0, 0), row(9, 2, false, 0, 0), row(5, 3, false, 0, 0)];
    let once = compact_plain(&rows);
    assert_eq!(once, vec![row(9, 2, false, 0, 0), row(5, 3, false, 0, 0), row(3, 1, false, 0, 0)]);
    // compacting an already-compacted set reproduces the same rows
    let twice = compact_plain(&once);
    assert_eq!(twice, once);
}

#[test]
fn deleted_file_names_never_survive() {
    let rows = vec![
        row(10, 1, false, 0, 0),
        row(9, 2, false, 0, 0),
        row(8, 2, true, 0, 0),
        row(7, 3, false, 0, 0),
        row(6, 4, true, 0, 0),
    ];
    let out = compact_index(&rows);
    // file 2 was soft-deleted and file 4 only ever appears deleted
    assert_eq!(out, vec![row(10, 1, false, 0, 0), row(7, 3, false, 0, 0)]);
    for r in &out {
        assert!(r.file_name != 2 && r.file_name != 4);
        assert!(!r.deleted);
    }
    // each survivor appears exactly once
    assert_eq!(out.iter().filter(|r| r.file_name == 1).count(), 1);
    assert_eq!(out.iter().filter(|r| r.file_name == 3).count(), 1);
}

#[test]
fn index_compaction_is_idempotent() {
    let rows = vec![row(10, 1, false, 0, 0), row(9, 2, true, 0, 0), row(8, 3, false, 0, 0)];
    let once = compact_index(&rows);
    let twice = compact_index(&once);
    assert_eq!(twice, once);
}

#[test]
fn rollup_groups_sum_and_take_min() {
    let rows = vec![
        row(100, 0, false, 7, 2),
        row(90, 0, false, 8, 5),
        row(80, 0, false, 7, 3),
        row(120, 0, false, 7, 1),
    ];
    let out = compact_distinct(&rows);
    assert_eq!(out.len(), 2);
    // one row per group key
    let g7: Vec<&Record> = out.iter().filter(|r| r.group_key == 7).collect();
    let g8: Vec<&Record> = out.iter().filter(|r| r.group_key == 8).collect();
    assert_eq!(g7.len(), 1);
    assert_eq!(g8.len(), 1);
    // the count is the sum of the contributing counts
    assert_eq!(g7[0].count, 6);
    assert_eq!(g8[0].count, 5);
    // the time is the minimum contributing time
    assert_eq!(g7[0].ts, 80);
    assert_eq!(g8[0].ts, 90);
    // newest first
    assert!(out[0].ts >= out[1].ts);
}

#[test]
fn rollup_is_idempotent() {
    let rows = vec![row(100, 0, false, 7, 2), row(90, 0, false, 8, 5), row(80, 0, false, 9, 3)];
    let once = compact_distinct(&rows);
    let twice = compact_distinct(&once);
    assert_eq!(twice, once);
}

#[test]
fn stream_failures_abort_the_merge() {
    assert_eq!(merge_step(MergeEvent::BatchReady), Ok(MergeAction::WriteBatch));
    assert_eq!(merge_step(MergeEvent::StreamFinished), Ok(MergeAction::CloseAndDeregister));
    assert_eq!(merge_step(MergeEvent::BatchWriteFailed), Err(ExecError::WriteFailure));
    assert_eq!(merge_step(MergeEvent::StreamFailed), Err(ExecError::ExecutionFailure));
}

#[test]
fn function_names_bind_once_case_sensitively() {
    let mut reg = FunctionRegistry::new();
    assert!(reg.register(String::from("str_match")));
    assert!(reg.register(String::from("histogram")));
    assert!(!reg.register(String::from("str_match")));
    assert!(reg.contains("str_match"));
    assert!(reg.contains("histogram"));
    assert!(!reg.contains("STR_MATCH"));
    assert!(!reg.contains("fuzzy_match"));
}

#[test]
fn text_helpers_compare_exactly() {
    assert!(str_equal("", ""));
    assert!(str_equal("abc", "abc"));
    assert!(!str_equal("abc", "abd"));
    assert!(!str_equal("abc", "ab"));
    assert!(str_starts_with("distinct_values_logs", "distinct_values"));
    assert!(str_starts_with("abc", ""));
    assert!(!str_starts_with("ab", "abc"));
    assert!(!str_starts_with("xbc", "ab"));
}

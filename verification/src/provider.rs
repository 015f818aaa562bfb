use vstd::prelude::*;
use vstd::string::StringExecFns;

use crate::context::prepare_datafusion_context;
use crate::context::ContextPlan;
use crate::errors::ExecError;
use crate::governor::get_cpu_and_mem_limit;
use crate::governor::spec_scaled_memory;
use crate::governor::spec_scaled_partitions;
use crate::governor::spec_valid_allowance;
use crate::governor::WorkGroupQuery;
use crate::schema::schema_key;
use crate::schema::normalize_timestamp;
use crate::schema::spec_normalized_schema;
use crate::schema::spec_schema_key;
use crate::schema::ColumnType;
use crate::schema::SchemaDef;
use crate::settings::spec_base_partitions;
use crate::settings::spec_floor_memory;
use crate::settings::spec_floor_partitions;
use crate::settings::spec_parse_memory_pool;
use crate::settings::EngineConfig;
use crate::settings::MemoryPoolType;
use crate::settings::MIN_MEMORY_BYTES;
use crate::settings::MIN_PARTITION_COUNT;
use crate::storage::needs_staging;
use crate::storage::spec_needs_staging;
use crate::storage::spec_table_prefix;
use crate::storage::table_prefix;
use crate::storage::StorageKind;
use crate::text::str_equal;

verus! {

/// One search or compaction request's identity and placement.
pub struct SessionDesc {
    /// Session id; storage paths are namespaced under it.
    pub id: String,
    /// Which storage tier holds the session's segment files.
    pub storage_kind: StorageKind,
    /// Requested parallelism; zero asks for the machine default.
    pub target_partitions: usize,
}

/// One staged file list: a session's files for one schema generation.
pub struct StageEntry {
    /// Owning session.
    pub session_id: String,
    /// Schema content key the files share.
    pub schema_key: String,
    /// Logical paths of the staged files.
    pub files: Vec<String>,
}

/// Which file list a (session, schema key) pair resolves to, newest first.
pub open spec fn spec_stage_lookup(
    entries: Seq<StageEntry>,
    id: Seq<char>,
    key: Seq<char>,
) -> Option<Seq<Seq<char>>>
    decreases entries.len(),
{
    if entries.len() == 0 {
        None
    } else if entries.last().session_id@ == id && entries.last().schema_key@ == key {
        Some(entries.last().files.deep_view())
    } else {
        spec_stage_lookup(entries.drop_last(), id, key)
    }
}

/// The staging store of the ephemeral and write-ahead tiers: listing calls
/// later address a session's files purely by URL prefix, so the file list
/// must be staged before any listing against that prefix.
pub struct FileStage {
    entries: Vec<StageEntry>,
}

impl FileStage {
    /// The file list staged under a (session, schema key) pair.
    pub closed spec fn spec_lookup(self, id: Seq<char>, key: Seq<char>) -> Option<Seq<Seq<char>>> {
        spec_stage_lookup(self.entries@, id, key)
    }

    /// Nothing is staged yet.
    pub fn new() -> (r: FileStage)
        ensures
            forall|id: Seq<char>, key: Seq<char>|
                r.spec_lookup(id, key) == None::<Seq<Seq<char>>>,
            r.spec_staged_count() == 0,
    {
        FileStage { entries: Vec::new() }
    }

    /// How many staged lists the store holds.
    pub closed spec fn spec_staged_count(self) -> nat {
        self.entries@.len()
    }

    /// Exec mirror of [`FileStage::spec_staged_count`].
    pub fn staged_count(&self) -> (r: usize)
        ensures
            r == self.spec_staged_count(),
    {
        self.entries.len()
    }

    /// Stages a session's file list for one schema generation, replacing any
    /// list staged under the same pair and leaving every other pair alone.
    pub fn set(&mut self, session_id: &str, schema_key: &str, files: &Vec<String>)
        ensures
            final(self).spec_lookup(session_id@, schema_key@) == Some(files.deep_view()),
            forall|id: Seq<char>, key: Seq<char>|
                !(id == session_id@ && key == schema_key@) ==> final(self).spec_lookup(id, key)
                    == old(self).spec_lookup(id, key),
    {
        let ghost before = self.entries@;
        let entry = StageEntry {
            session_id: String::from_str(session_id),
            schema_key: String::from_str(schema_key),
            files: clone_string_vec(files),
        };
        self.entries.push(entry);
        proof {
            assert(self.entries@.drop_last() =~= before);
        }
    }
}

/// Copies a list of logical paths.
fn clone_string_vec(v: &Vec<String>) -> (r: Vec<String>)
    ensures
        r.deep_view() == v.deep_view(),
{
    let n = v.len();
    let mut out: Vec<String> = Vec::new();
    let mut i: usize = 0;
    while i < n
        invariant
            i <= n,
            n == v@.len(),
            out@.len() == i,
            forall|k: int| 0 <= k < i ==> out@[k]@ == #[trigger] v@[k]@,
        decreases n - i,
    {
        out.push(v[i].clone());
        i += 1;
    }
    proof {
        assert(out.deep_view() =~= v.deep_view());
    }
    out
}

/// The column the planner may assume files are sorted by.
pub struct SortHint {
    /// Column name.
    pub column: String,
    /// Ascending order when true.
    pub ascending: bool,
    /// Nulls ordered first when true.
    pub nulls_first: bool,
}

/// Everything the engine needs to build one logical listing table.
pub struct TablePlan {
    /// File extension filter; only canonical columnar segments are listed.
    pub file_extension: String,
    /// Resolved partition count, never zero.
    pub target_partitions: usize,
    /// File statistics are collected while listing.
    pub collect_statistics: bool,
    /// Per-file sort order hint, set only for time-sorted registrations.
    pub sort_order: Option<SortHint>,
    /// URL prefix the files are listed under.
    pub url_prefix: String,
    /// The output schema handed to the listing configuration.
    pub schema: SchemaDef,
    /// Per-column type-coercion rules, passed through to the scanner.
    pub cast_rules: Vec<(String, ColumnType)>,
    /// Index-derived row filter, passed through to physical planning.
    pub index_condition: Option<String>,
    /// Field names eligible for secondary fast-field lookups.
    pub fst_fields: Vec<String>,
    /// Whether the shared file-statistics cache is attached.
    pub attach_stats_cache: bool,
}

/// Plans one logical table over a set of segment files.
///
/// The partition count is resolved against the machine default, scaled by
/// the workgroup allowance, and floored, in that order. The ephemeral and
/// staging tiers stage the file list under the deterministic
/// `{scheme}:///{session}/schema={key}/` prefix before listing; scratch files
/// are expected resident and nothing is staged. A failed workgroup lookup or
/// an unsupported storage tier is fatal and leaves nothing staged behind.
pub fn create_parquet_table(
    cfg: &EngineConfig,
    session: &SessionDesc,
    schema: &SchemaDef,
    files: &Vec<String>,
    cast_rules: Vec<(String, ColumnType)>,
    sorted_by_time: bool,
    work_group: WorkGroupQuery,
    file_stat_cache_available: bool,
    index_condition: Option<String>,
    fst_fields: Vec<String>,
    stage: &mut FileStage,
) -> (r: Result<TablePlan, ExecError>)
    requires
        spec_valid_allowance(work_group),
        session.target_partitions * 100 <= usize::MAX,
        cfg.cpu_num * 100 <= usize::MAX,
        cfg.min_partition_num * 100 <= usize::MAX,
    ensures
        r is Ok <==> (!(work_group is LookupFailed) && session.storage_kind
            != StorageKind::Remote),
        work_group is LookupFailed ==> r == Err::<TablePlan, ExecError>(
            ExecError::ResourceResolutionFailure,
        ),
        !(work_group is LookupFailed) && session.storage_kind == StorageKind::Remote ==> r
            == Err::<TablePlan, ExecError>(ExecError::UnsupportedStorageBackend),
        r is Err ==> *final(stage) == *old(stage),
        r matches Ok(plan) ==> {
            &&& plan.target_partitions == spec_floor_partitions(
                spec_scaled_partitions(
                    work_group,
                    spec_base_partitions(
                        session.target_partitions as int,
                        cfg.cpu_num as int,
                        cfg.min_partition_num as int,
                    ),
                    cfg.cpu_limit_enabled,
                ),
            )
            &&& plan.target_partitions >= 1
            &&& plan.file_extension@ == "parquet"@
            &&& plan.collect_statistics
            &&& (sorted_by_time ==> (plan.sort_order matches Some(h) && h.column@
                == cfg.timestamp_column@ && !h.ascending && !h.nulls_first))
            &&& (!sorted_by_time ==> plan.sort_order is None)
            &&& plan.url_prefix@ == spec_table_prefix(
                session.storage_kind,
                session.id@,
                spec_schema_key(schema.fields@),
            )
            &&& spec_normalized_schema(schema.fields@, cfg.timestamp_column@, plan.schema.fields@)
            &&& plan.cast_rules == cast_rules
            &&& plan.index_condition == index_condition
            &&& plan.fst_fields == fst_fields
            &&& plan.attach_stats_cache == (session.storage_kind != StorageKind::Tmpfs
                && file_stat_cache_available)
            &&& (spec_needs_staging(session.storage_kind) ==> final(stage).spec_lookup(
                session.id@,
                spec_schema_key(schema.fields@),
            ) == Some(files.deep_view()) && forall|id: Seq<char>, key: Seq<char>|
                !(id == session.id@ && key == spec_schema_key(schema.fields@))
                    ==> final(stage).spec_lookup(id, key) == old(stage).spec_lookup(id, key))
            &&& (!spec_needs_staging(session.storage_kind) ==> *final(stage) == *old(stage))
        },
{
    let base: usize = if session.target_partitions == 0 {
        cfg.cpu_num
    } else if cfg.min_partition_num > session.target_partitions {
        cfg.min_partition_num
    } else {
        session.target_partitions
    };
    let scaled = match get_cpu_and_mem_limit(work_group, base, 0, cfg.cpu_limit_enabled) {
        Ok(pair) => pair.0,
        Err(e) => {
            return Err(e);
        },
    };
    let resolved: usize = if scaled == 0 {
        MIN_PARTITION_COUNT
    } else {
        scaled
    };
    let sort_order: Option<SortHint> = if sorted_by_time {
        Some(
            SortHint {
                column: cfg.timestamp_column.clone(),
                ascending: false,
                nulls_first: false,
            },
        )
    } else {
        None
    };
    let key = schema_key(schema);
    let prefix = match table_prefix(session.storage_kind, session.id.as_str(), key.as_str()) {
        Ok(p) => p,
        Err(e) => {
            return Err(e);
        },
    };
    if needs_staging(session.storage_kind) {
        stage.set(session.id.as_str(), key.as_str(), files);
    }
    let normalized = normalize_timestamp(schema, cfg.timestamp_column.as_str());
    Ok(
        TablePlan {
            file_extension: String::from_str("parquet"),
            target_partitions: resolved,
            collect_statistics: true,
            sort_order,
            url_prefix: prefix,
            schema: normalized,
            cast_rules,
            index_condition,
            fst_fields,
            attach_stats_cache: match session.storage_kind {
                StorageKind::Tmpfs => false,
                _ => file_stat_cache_available,
            },
        },
    )
}

/// A ready execution context with one logical table registered under a name.
pub struct RegisteredTable {
    /// The context the table is registered into.
    pub context: ContextPlan,
    /// Name the table answers to in queries.
    pub table_name: String,
    /// The registered table.
    pub table: TablePlan,
}

/// Builds a query-ready context and registers one logical table in it.
///
/// The only sort key that asserts time-sortedness is the time column alone,
/// descending; any other key leaves the statistics split and the file sort
/// hint off. The workgroup governor is consulted twice, independently: once
/// sizing the context, once sizing the table's listing — the same allowance
/// yields the same result. Fails, leaving nothing staged, exactly when the
/// workgroup lookup fails, the memory-pool strategy does not parse, or the
/// session names the durable store.
pub fn register_table(
    cfg: &EngineConfig,
    session: &SessionDesc,
    schema: &SchemaDef,
    table_name: String,
    files: &Vec<String>,
    cast_rules: Vec<(String, ColumnType)>,
    sort_key: &Vec<(String, bool)>,
    work_group: WorkGroupQuery,
    stage: &mut FileStage,
) -> (r: Result<RegisteredTable, ExecError>)
    requires
        spec_valid_allowance(work_group),
        session.target_partitions * 100 <= usize::MAX,
        cfg.cpu_num * 100 <= usize::MAX,
        cfg.min_partition_num * 100 <= usize::MAX,
        cfg.memory_max_size * 100 <= usize::MAX,
    ensures
        r is Ok <==> (!(work_group is LookupFailed) && spec_parse_memory_pool(
            cfg.memory_pool@,
        ) is Ok && session.storage_kind != StorageKind::Remote),
        work_group is LookupFailed ==> r == Err::<RegisteredTable, ExecError>(
            ExecError::ResourceResolutionFailure,
        ),
        !(work_group is LookupFailed) && spec_parse_memory_pool(cfg.memory_pool@) is Err ==> r
            == Err::<RegisteredTable, ExecError>(ExecError::InvalidConfiguration),
        !(work_group is LookupFailed) && spec_parse_memory_pool(cfg.memory_pool@) is Ok
            && session.storage_kind == StorageKind::Remote ==> r == Err::<
            RegisteredTable,
            ExecError,
        >(ExecError::UnsupportedStorageBackend),
        r is Err ==> *final(stage) == *old(stage),
        r matches Ok(t) ==> {
            &&& t.table_name == table_name
            &&& t.context.session.split_file_groups_by_statistics == spec_sorted_by_time(
                sort_key@,
                cfg.timestamp_column@,
            )
            &&& t.context.session.target_partitions == spec_floor_partitions(
                spec_base_partitions(
                    spec_scaled_partitions(
                        work_group,
                        session.target_partitions as int,
                        cfg.cpu_limit_enabled,
                    ),
                    cfg.cpu_num as int,
                    cfg.min_partition_num as int,
                ),
            )
            &&& t.context.session.target_partitions >= 1
            &&& t.context.runtime.memory_size == spec_floor_memory(
                spec_scaled_memory(work_group, cfg.memory_max_size as int),
            )
            &&& t.context.runtime.memory_size >= MIN_MEMORY_BYTES
            &&& Ok::<MemoryPoolType, ExecError>(t.context.runtime.pool) == spec_parse_memory_pool(
                cfg.memory_pool@,
            )
            &&& !t.context.with_join_reorder
            &&& t.context.with_custom_planner == cfg.feature_join_match_one_enabled
            &&& t.table.target_partitions == spec_floor_partitions(
                spec_scaled_partitions(
                    work_group,
                    spec_base_partitions(
                        session.target_partitions as int,
                        cfg.cpu_num as int,
                        cfg.min_partition_num as int,
                    ),
                    cfg.cpu_limit_enabled,
                ),
            )
            &&& t.table.url_prefix@ == spec_table_prefix(
                session.storage_kind,
                session.id@,
                spec_schema_key(schema.fields@),
            )
            &&& spec_normalized_schema(schema.fields@, cfg.timestamp_column@, t.table.schema.fields@)
            &&& t.table.cast_rules == cast_rules
            &&& t.table.index_condition is None
            &&& t.table.fst_fields@.len() == 0
            &&& t.table.attach_stats_cache == (session.storage_kind != StorageKind::Tmpfs
                && cfg.file_stat_cache_max_entries > 0)
            &&& (spec_sorted_by_time(sort_key@, cfg.timestamp_column@) ==> (
            t.table.sort_order matches Some(h) && h.column@ == cfg.timestamp_column@ && !h.ascending
                && !h.nulls_first))
            &&& (!spec_sorted_by_time(sort_key@, cfg.timestamp_column@)
                ==> t.table.sort_order is None)
            &&& (spec_needs_staging(session.storage_kind) ==> final(stage).spec_lookup(
                session.id@,
                spec_schema_key(schema.fields@),
            ) == Some(files.deep_view()))
            &&& (!spec_needs_staging(session.storage_kind) ==> *final(stage) == *old(stage))
        },
{
    let sorted_by_time = sorted_by_time_key(sort_key, cfg.timestamp_column.as_str());
    let context = match prepare_datafusion_context(
        cfg,
        work_group,
        false,
        sorted_by_time,
        session.target_partitions,
    ) {
        Ok(c) => c,
        Err(e) => {
            return Err(e);
        },
    };
    let cache_available = context.runtime.use_stats_cache;
    let table = match create_parquet_table(
        cfg,
        session,
        schema,
        files,
        cast_rules,
        sorted_by_time,
        work_group,
        cache_available,
        None,
        Vec::new(),
        stage,
    ) {
        Ok(t) => t,
        Err(e) => {
            return Err(e);
        },
    };
    Ok(RegisteredTable { context, table_name, table })
}

/// Whether a sort key asks for the one supported order: the time column
/// alone, descending.
pub open spec fn spec_sorted_by_time(sort_key: Seq<(String, bool)>, ts: Seq<char>) -> bool {
    sort_key.len() == 1 && sort_key[0].0@ == ts && sort_key[0].1
}

/// Decides whether a sort key is the supported time-descending order.
pub fn sorted_by_time_key(sort_key: &Vec<(String, bool)>, ts: &str) -> (r: bool)
    ensures
        r == spec_sorted_by_time(sort_key@, ts@),
{
    if sort_key.len() != 1 {
        return false;
    }
    let first = &sort_key[0];
    str_equal(first.0.as_str(), ts) && first.1
}

} // verus!

use vstd::prelude::*;
use vstd::string::StringExecFns;

use crate::errors::ExecError;
use crate::schema::FieldDef;
use crate::schema::SchemaDef;
use crate::settings::EngineConfig;
use crate::text::str_equal;
use crate::text::str_starts_with;

verus! {

/// Stream flavors the compaction pipeline distinguishes.
#[derive(Debug, Clone, Copy, PartialEq, Eq, Structural)]
pub enum StreamKind {
    /// Log events.
    Logs,
    /// Metric samples.
    Metrics,
    /// Trace spans.
    Traces,
    /// Engine metadata, among it the distinct-values rollup streams.
    Metadata,
    /// Inverted-index streams carrying per-file deletion markers.
    Index,
}

/// The group-by columns of the distinct-values rollup: every column except
/// the time column and the count, in schema order.
pub open spec fn spec_group_fields(fields: Seq<FieldDef>, ts: Seq<char>) -> Seq<Seq<char>>
    decreases fields.len(),
{
    if fields.len() == 0 {
        Seq::empty()
    } else {
        let rest = spec_group_fields(fields.drop_last(), ts);
        if fields.last().name@ != ts && fields.last().name@ != "count"@ {
            rest.push(fields.last().name@)
        } else {
            rest
        }
    }
}

/// Comma-joined column list.
pub open spec fn spec_joined(names: Seq<Seq<char>>) -> Seq<char>
    decreases names.len(),
{
    if names.len() == 0 {
        Seq::empty()
    } else if names.len() == 1 {
        names[0]
    } else {
        spec_joined(names.drop_last()) + ", "@ + names.last()
    }
}

/// Deletion-reconciling template for index streams: survivors are the rows
/// whose file name never appears among the deleted ones, newest first.
pub open spec fn spec_index_sql(ts: Seq<char>) -> Seq<char> {
    "SELECT * FROM tbl WHERE file_name NOT IN (SELECT file_name FROM tbl WHERE deleted IS TRUE ORDER BY "@
        + ts + " DESC) ORDER BY "@ + ts + " DESC"@
}

/// Default template: the full merge-sort, newest first.
pub open spec fn spec_plain_sql(ts: Seq<char>) -> Seq<char> {
    "SELECT * FROM tbl ORDER BY "@ + ts + " DESC"@
}

/// Rollup template for hourly distinct-values streams: one row per group
/// key, carrying the minimum time and the summed count.
pub open spec fn spec_distinct_sql(ts: Seq<char>, fields_str: Seq<char>) -> Seq<char> {
    "SELECT MIN("@ + ts + ") AS "@ + ts + ", SUM(count) as count, "@ + fields_str
        + " FROM tbl GROUP BY "@ + fields_str + " ORDER BY "@ + ts + " DESC"@
}

/// Whether a stream takes the distinct-values rollup template.
pub open spec fn spec_use_distinct_template(
    kind: StreamKind,
    stream_name: Seq<char>,
    hourly_enabled: bool,
) -> bool {
    hourly_enabled && kind == StreamKind::Metadata && "distinct_values"@.is_prefix_of(stream_name)
}

/// Collects the group-by column names of the rollup template.
fn group_fields(schema: &SchemaDef, ts: &str) -> (r: Vec<String>)
    ensures
        r.deep_view() == spec_group_fields(schema.fields@, ts@),
{
    let n = schema.fields.len();
    let mut names: Vec<String> = Vec::new();
    let mut i: usize = 0;
    while i < n
        invariant
            i <= n,
            n == schema.fields@.len(),
            names.deep_view() == spec_group_fields(schema.fields@.take(i as int), ts@),
        decreases n - i,
    {
        let f = &schema.fields[i];
        let ghost pre = schema.fields@.take(i as int + 1);
        proof {
            assert(pre.drop_last() =~= schema.fields@.take(i as int));
            assert(pre.last() == schema.fields@[i as int]);
        }
        if !str_equal(f.name.as_str(), ts) && !str_equal(f.name.as_str(), "count") {
            names.push(f.name.clone());
            proof {
                assert(names.deep_view() =~= spec_group_fields(pre, ts@));
            }
        } else {
            proof {
                assert(names.deep_view() =~= spec_group_fields(pre, ts@));
            }
        }
        i += 1;
    }
    proof {
        assert(schema.fields@.take(n as int) =~= schema.fields@);
    }
    names
}

/// Joins column names with a comma.
fn join_fields(names: &Vec<String>) -> (r: String)
    ensures
        r@ == spec_joined(names.deep_view()),
{
    let n = names.len();
    let mut out = String::new();
    let mut i: usize = 0;
    while i < n
        invariant
            i <= n,
            n == names@.len(),
            out@ == spec_joined(names.deep_view().take(i as int)),
        decreases n - i,
    {
        let ghost pre = names.deep_view().take(i as int + 1);
        proof {
            assert(pre.drop_last() =~= names.deep_view().take(i as int));
            assert(pre.last() == names.deep_view()[i as int]);
        }
        if i > 0 {
            out.append(", ");
        }
        out.append(names[i].as_str());
        proof {
            assert(out@ =~= spec_joined(pre));
        }
        i += 1;
    }
    proof {
        assert(names.deep_view().take(n as int) =~= names.deep_view());
    }
    out
}

/// Chooses and renders the compaction query for one stream.
///
/// Index streams reconcile soft-deletes; hourly distinct-values metadata
/// streams collapse duplicate observations per group key when the rollup is
/// enabled; everything else is the plain merge-sort. All three templates
/// order by the time column descending, so the merged output is
/// deterministic for a given input file set.
pub fn merge_sql(
    cfg: &EngineConfig,
    stream_kind: StreamKind,
    stream_name: &str,
    schema: &SchemaDef,
) -> (r: String)
    ensures
        stream_kind == StreamKind::Index ==> r@ == spec_index_sql(cfg.timestamp_column@),
        stream_kind != StreamKind::Index && spec_use_distinct_template(
            stream_kind,
            stream_name@,
            cfg.distinct_values_hourly,
        ) ==> r@ == spec_distinct_sql(
            cfg.timestamp_column@,
            spec_joined(spec_group_fields(schema.fields@, cfg.timestamp_column@)),
        ),
        stream_kind != StreamKind::Index && !spec_use_distinct_template(
            stream_kind,
            stream_name@,
            cfg.distinct_values_hourly,
        ) ==> r@ == spec_plain_sql(cfg.timestamp_column@),
{
    let ts = cfg.timestamp_column.as_str();
    let is_index = match stream_kind {
        StreamKind::Index => true,
        _ => false,
    };
    let is_metadata = match stream_kind {
        StreamKind::Metadata => true,
        _ => false,
    };
    if is_index {
        let mut s = String::from_str(
            "SELECT * FROM tbl WHERE file_name NOT IN (SELECT file_name FROM tbl WHERE deleted IS TRUE ORDER BY ",
        );
        s.append(ts);
        s.append(" DESC) ORDER BY ");
        s.append(ts);
        s.append(" DESC");
        proof {
            assert(s@ =~= spec_index_sql(cfg.timestamp_column@));
        }
        s
    } else if cfg.distinct_values_hourly && is_metadata && str_starts_with(
        stream_name,
        "distinct_values",
    ) {
        let names = group_fields(schema, ts);
        let fields_str = join_fields(&names);
        let mut s = String::from_str("SELECT MIN(");
        s.append(ts);
        s.append(") AS ");
        s.append(ts);
        s.append(", SUM(count) as count, ");
        s.append(fields_str.as_str());
        s.append(" FROM tbl GROUP BY ");
        s.append(fields_str.as_str());
        s.append(" ORDER BY ");
        s.append(ts);
        s.append(" DESC");
        proof {
            assert(s@ =~= spec_distinct_sql(
                cfg.timestamp_column@,
                spec_joined(spec_group_fields(schema.fields@, cfg.timestamp_column@)),
            ));
        }
        s
    } else {
        let mut s = String::from_str("SELECT * FROM tbl ORDER BY ");
        s.append(ts);
        s.append(" DESC");
        proof {
            assert(s@ =~= spec_plain_sql(cfg.timestamp_column@));
        }
        s
    }
}

/// The fixed decisions of one merge/compaction run: the query, the asserted
/// time-sortedness, and the parallelism taken from the configured default.
pub struct MergeJob {
    /// The compaction query to plan against the unioned table.
    pub sql: String,
    /// Compaction output is known time-sorted.
    pub sorted_by_time: bool,
    /// Parallelism for the compaction context.
    pub target_partitions: usize,
}

/// Plans one merge/compaction run over a unioned table.
pub fn plan_merge(
    cfg: &EngineConfig,
    stream_kind: StreamKind,
    stream_name: &str,
    schema: &SchemaDef,
) -> (r: MergeJob)
    ensures
        r.sorted_by_time,
        r.target_partitions == cfg.cpu_num,
        stream_kind == StreamKind::Index ==> r.sql@ == spec_index_sql(cfg.timestamp_column@),
        stream_kind != StreamKind::Index && spec_use_distinct_template(
            stream_kind,
            stream_name@,
            cfg.distinct_values_hourly,
        ) ==> r.sql@ == spec_distinct_sql(
            cfg.timestamp_column@,
            spec_joined(spec_group_fields(schema.fields@, cfg.timestamp_column@)),
        ),
        stream_kind != StreamKind::Index && !spec_use_distinct_template(
            stream_kind,
            stream_name@,
            cfg.distinct_values_hourly,
        ) ==> r.sql@ == spec_plain_sql(cfg.timestamp_column@),
{
    let sql = merge_sql(cfg, stream_kind, stream_name, schema);
    MergeJob { sql, sorted_by_time: true, target_partitions: cfg.cpu_num }
}

/// One event of the compaction result stream.
#[derive(Debug, Clone, Copy, PartialEq, Eq, Structural)]
pub enum MergeEvent {
    /// The stream produced a batch.
    BatchReady,
    /// The columnar writer failed on the batch just handed to it.
    BatchWriteFailed,
    /// The stream itself failed.
    StreamFailed,
    /// The stream is exhausted.
    StreamFinished,
}

/// What the compaction pipeline does next.
#[derive(Debug, Clone, Copy, PartialEq, Eq, Structural)]
pub enum MergeAction {
    /// Hand the batch to the columnar writer.
    WriteBatch,
    /// Flush the writer's footer and statistics, then drop the temporary
    /// table registration.
    CloseAndDeregister,
}

/// The streaming step of the compaction pipeline: batches are written one at
/// a time as they arrive; the first write failure or stream failure aborts
/// the whole run with the matching error, with no retry and no partial
/// output committed; exhaustion closes the writer and deregisters the
/// temporary table.
pub fn merge_step(event: MergeEvent) -> (r: Result<MergeAction, ExecError>)
    ensures
        event == MergeEvent::BatchReady ==> r == Ok::<MergeAction, ExecError>(
            MergeAction::WriteBatch,
        ),
        event == MergeEvent::BatchWriteFailed ==> r == Err::<MergeAction, ExecError>(
            ExecError::WriteFailure,
        ),
        event == MergeEvent::StreamFailed ==> r == Err::<MergeAction, ExecError>(
            ExecError::ExecutionFailure,
        ),
        event == MergeEvent::StreamFinished ==> r == Ok::<MergeAction, ExecError>(
            MergeAction::CloseAndDeregister,
        ),
{
    match event {
        MergeEvent::BatchReady => Ok(MergeAction::WriteBatch),
        MergeEvent::BatchWriteFailed => Err(ExecError::WriteFailure),
        MergeEvent::StreamFailed => Err(ExecError::ExecutionFailure),
        MergeEvent::StreamFinished => Ok(MergeAction::CloseAndDeregister),
    }
}

} // verus!

use vstd::prelude::*;
use vstd::string::StringExecFns;

use crate::text::str_equal;

verus! {

/// Logical column types a segment schema can carry.
#[derive(Debug, Clone, Copy, PartialEq, Eq, Structural)]
pub enum ColumnType {
    /// 64-bit signed integer.
    Int64,
    /// 64-bit unsigned integer.
    UInt64,
    /// UTF-8 text.
    Utf8,
    /// Boolean.
    Boolean,
}

/// One (name, type, nullable) triple of a schema.
pub struct FieldDef {
    /// Column name.
    pub name: String,
    /// Logical type.
    pub column_type: ColumnType,
    /// Whether the column admits nulls.
    pub nullable: bool,
}

/// An ordered list of fields; the nominal layout of a set of segment files.
pub struct SchemaDef {
    /// The fields, in declaration order.
    pub fields: Vec<FieldDef>,
}

/// Index of the first field with the given name, or -1 when absent.
pub open spec fn spec_first_field_index(fields: Seq<FieldDef>, name: Seq<char>) -> int
    decreases fields.len(),
{
    if fields.len() == 0 {
        -1
    } else if fields.first().name@ == name {
        0
    } else {
        let rest = spec_first_field_index(fields.drop_first(), name);
        if rest == -1 {
            -1
        } else {
            rest + 1
        }
    }
}

/// Whether the schema's first time field is declared nullable, which forces
/// the normalization rewrite.
pub open spec fn spec_time_needs_rewrite(fields: Seq<FieldDef>, ts: Seq<char>) -> bool {
    let i = spec_first_field_index(fields, ts);
    i >= 0 && fields[i].nullable
}

/// Field-for-field equality of the (name, type, nullable) triples.
pub open spec fn spec_field_eq(a: FieldDef, b: FieldDef) -> bool {
    a.name@ == b.name@ && a.column_type == b.column_type && a.nullable == b.nullable
}

/// How one field of the normalized schema relates to its source: a time
/// field is rewritten to non-nullable Int64 when the rewrite fires, every
/// other field passes through unchanged.
pub open spec fn spec_normalized_field(
    src: FieldDef,
    ts: Seq<char>,
    rewrite: bool,
    dst: FieldDef,
) -> bool {
    if rewrite && src.name@ == ts {
        dst.name@ == ts && dst.column_type == ColumnType::Int64 && !dst.nullable
    } else {
        spec_field_eq(dst, src)
    }
}

/// How a whole normalized schema relates to its source, field for field.
pub open spec fn spec_normalized_schema(src: Seq<FieldDef>, ts: Seq<char>, dst: Seq<FieldDef>) -> bool {
    &&& dst.len() == src.len()
    &&& forall|i: int|
        0 <= i < src.len() ==> spec_normalized_field(
            #[trigger] src[i],
            ts,
            spec_time_needs_rewrite(src, ts),
            dst[i],
        )
}

proof fn first_field_index_bounds(fields: Seq<FieldDef>, name: Seq<char>)
    ensures
        -1 <= spec_first_field_index(fields, name) < fields.len(),
        spec_first_field_index(fields, name) >= 0 ==> fields[spec_first_field_index(
            fields,
            name,
        )].name@ == name,
        spec_first_field_index(fields, name) == -1 ==> forall|i: int|
            0 <= i < fields.len() ==> fields[i].name@ != name,
    decreases fields.len(),
{
    if fields.len() > 0 && fields.first().name@ != name {
        first_field_index_bounds(fields.drop_first(), name);
        assert forall|i: int|
            spec_first_field_index(fields, name) == -1 && 0 <= i
                < fields.len() implies fields[i].name@ != name by {
            if i > 0 {
                assert(fields.drop_first()[i - 1] == fields[i]);
            }
        }
    }
}

/// Finds the first field with the given name.
fn first_field_index(fields: &Vec<FieldDef>, name: &str) -> (r: Option<usize>)
    ensures
        r matches Some(i) ==> i < fields@.len() && spec_first_field_index(fields@, name@) == i,
        r is None ==> spec_first_field_index(fields@, name@) == -1,
{
    let n = fields.len();
    let mut i: usize = 0;
    while i < n
        invariant
            i <= n,
            n == fields@.len(),
            forall|k: int| 0 <= k < i ==> fields@[k].name@ != name@,
        decreases n - i,
    {
        if str_equal(fields[i].name.as_str(), name) {
            proof {
                first_field_index_lower(fields@, name@, i as int);
            }
            return Some(i);
        }
        i += 1;
    }
    proof {
        first_field_index_bounds(fields@, name@);
        if spec_first_field_index(fields@, name@) >= 0 {
            assert(fields@[spec_first_field_index(fields@, name@)].name@ == name@);
        }
    }
    None
}

proof fn first_field_index_lower(fields: Seq<FieldDef>, name: Seq<char>, i: int)
    requires
        0 <= i < fields.len(),
        fields[i].name@ == name,
        forall|k: int| 0 <= k < i ==> fields[k].name@ != name,
    ensures
        spec_first_field_index(fields, name) == i,
    decreases fields.len(),
{
    if i > 0 {
        assert(fields.first().name@ != name);
        assert forall|k: int| 0 <= k < i - 1 implies fields.drop_first()[k].name@ != name by {
            assert(fields.drop_first()[k] == fields[k + 1]);
        }
        assert(fields.drop_first()[i - 1] == fields[i]);
        first_field_index_lower(fields.drop_first(), name, i - 1);
    }
}

/// Normalizes the time column of a nominal schema.
///
/// When the schema's time field is declared nullable, every field carrying
/// the time column's name is rewritten to non-nullable Int64 — compacted and
/// queried time values are never null even where an upstream schema allowed
/// it historically. Any other schema passes through unchanged, field for
/// field.
pub fn normalize_timestamp(schema: &SchemaDef, ts: &str) -> (r: SchemaDef)
    ensures
        spec_normalized_schema(schema.fields@, ts@, r.fields@),
        spec_time_needs_rewrite(schema.fields@, ts@) ==> forall|i: int|
            0 <= i < r.fields@.len() && (#[trigger] r.fields@[i]).name@ == ts@
                ==> !r.fields@[i].nullable && r.fields@[i].column_type == ColumnType::Int64,
{
    let rewrite = match first_field_index(&schema.fields, ts) {
        Some(i) => schema.fields[i].nullable,
        None => false,
    };
    proof {
        first_field_index_bounds(schema.fields@, ts@);
        assert(rewrite == spec_time_needs_rewrite(schema.fields@, ts@));
    }
    let n = schema.fields.len();
    let mut out: Vec<FieldDef> = Vec::new();
    let mut i: usize = 0;
    while i < n
        invariant
            i <= n,
            n == schema.fields@.len(),
            out@.len() == i,
            forall|k: int|
                0 <= k < i ==> spec_normalized_field(
                    #[trigger] schema.fields@[k],
                    ts@,
                    rewrite,
                    out@[k],
                ),
        decreases n - i,
    {
        let f = &schema.fields[i];
        if rewrite && str_equal(f.name.as_str(), ts) {
            out.push(
                FieldDef {
                    name: f.name.clone(),
                    column_type: ColumnType::Int64,
                    nullable: false,
                },
            );
        } else {
            out.push(
                FieldDef {
                    name: f.name.clone(),
                    column_type: f.column_type,
                    nullable: f.nullable,
                },
            );
        }
        i += 1;
    }
    proof {
        if spec_time_needs_rewrite(schema.fields@, ts@) {
            assert forall|k: int|
                0 <= k < out@.len() && (#[trigger] out@[k]).name@ == ts@ implies !out@[k].nullable
                && out@[k].column_type == ColumnType::Int64 by {
                assert(spec_normalized_field(schema.fields@[k], ts@, rewrite, out@[k]));
            }
        }
    }
    SchemaDef { fields: out }
}

/// Canonical tag of a column type inside the schema content key.
pub open spec fn spec_type_tag(t: ColumnType) -> Seq<char> {
    match t {
        ColumnType::Int64 => "i64"@,
        ColumnType::UInt64 => "u64"@,
        ColumnType::Utf8 => "str"@,
        ColumnType::Boolean => "bool"@,
    }
}

/// Canonical encoding of one field inside the schema content key.
pub open spec fn spec_field_key(f: FieldDef) -> Seq<char> {
    f.name@ + "#"@ + spec_type_tag(f.column_type) + (if f.nullable {
        "?"@
    } else {
        "!"@
    }) + ";"@
}

/// The schema content key: fields of identical layout encode identically, so
/// files sharing a key are interchangeable for listing.
pub open spec fn spec_schema_key(fields: Seq<FieldDef>) -> Seq<char>
    decreases fields.len(),
{
    if fields.len() == 0 {
        Seq::empty()
    } else {
        spec_schema_key(fields.drop_last()) + spec_field_key(fields.last())
    }
}

/// Computes the schema content key, a deterministic encoding of the ordered
/// (name, type, nullable) list used to bucket interchangeable files.
pub fn schema_key(schema: &SchemaDef) -> (r: String)
    ensures
        r@ == spec_schema_key(schema.fields@),
{
    let n = schema.fields.len();
    let mut out = String::new();
    let mut i: usize = 0;
    while i < n
        invariant
            i <= n,
            n == schema.fields@.len(),
            out@ == spec_schema_key(schema.fields@.take(i as int)),
        decreases n - i,
    {
        let f = &schema.fields[i];
        out.append(f.name.as_str());
        out.append("#");
        match f.column_type {
            ColumnType::Int64 => out.append("i64"),
            ColumnType::UInt64 => out.append("u64"),
            ColumnType::Utf8 => out.append("str"),
            ColumnType::Boolean => out.append("bool"),
        }
        if f.nullable {
            out.append("?");
        } else {
            out.append("!");
        }
        out.append(";");
        proof {
            let pre = schema.fields@.take(i as int + 1);
            assert(pre.drop_last() =~= schema.fields@.take(i as int));
            assert(pre.last() == schema.fields@[i as int]);
            assert(out@ =~= spec_schema_key(pre));
        }
        i += 1;
    }
    proof {
        assert(schema.fields@.take(n as int) =~= schema.fields@);
    }
    out
}

} // verus!

use vstd::prelude::*;
use vstd::seq_lib::lemma_multiset_commutative;

verus! {

/// One compaction-relevant row of a segment file: the time column, the file
/// reference and deletion marker of index streams, and the group key and
/// count of distinct-values streams. File and group identities are interned
/// integers; the pipeline only ever compares them.
#[derive(Debug, Clone, Copy, PartialEq, Eq, Structural)]
pub struct Record {
    /// Value of the time column.
    pub ts: i64,
    /// Interned file name an index row refers to.
    pub file_name: u64,
    /// Soft-delete marker of index rows.
    pub deleted: bool,
    /// Interned group key of distinct-values rows.
    pub group_key: u64,
    /// Observation count of distinct-values rows.
    pub count: u64,
}

/// Newest-first order on the time column.
pub open spec fn spec_sorted_desc(s: Seq<Record>) -> bool {
    forall|i: int, j: int| 0 <= i < j < s.len() ==> s[i].ts >= s[j].ts
}

/// The smaller of two times.
pub open spec fn spec_imin(a: int, b: int) -> int {
    if a <= b {
        a
    } else {
        b
    }
}

proof fn lemma_insert_multiset(s: Seq<Record>, i: int, v: Record)
    requires
        0 <= i <= s.len(),
    ensures
        s.insert(i, v).to_multiset() =~= s.to_multiset().insert(v),
{
    broadcast use vstd::seq_lib::group_to_multiset_ensures;

    let a = s.subrange(0, i);
    let b = s.subrange(i, s.len() as int);
    assert(s =~= a + b);
    assert(s.insert(i, v) =~= a.push(v) + b);
    lemma_multiset_commutative(a.push(v), b);
    lemma_multiset_commutative(a, b);
    assert(a.push(v).to_multiset() =~= a.to_multiset().insert(v));
}

proof fn lemma_dup_count(s: Seq<Record>, i: int, j: int)
    requires
        0 <= i < j < s.len(),
        s[i] == s[j],
    ensures
        s.to_multiset().count(s[i]) >= 2,
{
    broadcast use vstd::seq_lib::group_to_multiset_ensures;
    broadcast use vstd::multiset::group_multiset_axioms;

    let a = s.subrange(0, j);
    let b = s.subrange(j, s.len() as int);
    assert(s =~= a + b);
    lemma_multiset_commutative(a, b);
    assert(a[i] == s[i]);
    assert(a.contains(s[i]));
    assert(b[0] == s[j]);
    assert(b.contains(s[i]));
    assert(a.to_multiset().count(s[i]) > 0);
    assert(b.to_multiset().count(s[i]) > 0);
}

/// Sorts rows by the time column, newest first, moving every row and
/// inventing none; rows that tie on time keep their arrival order.
pub fn sort_by_time_desc(rows: &Vec<Record>) -> (r: Vec<Record>)
    ensures
        r@.to_multiset() == rows@.to_multiset(),
        r@.len() == rows@.len(),
        spec_sorted_desc(r@),
{
    broadcast use vstd::seq_lib::group_to_multiset_ensures;

    let n = rows.len();
    let mut out: Vec<Record> = Vec::new();
    let mut i: usize = 0;
    while i < n
        invariant
            i <= n,
            n == rows@.len(),
            out@.len() == i,
            out@.to_multiset() == rows@.take(i as int).to_multiset(),
            spec_sorted_desc(out@),
        decreases n - i,
    {
        let v = rows[i];
        let m = out.len();
        let mut p: usize = 0;
        while p < m && out[p].ts >= v.ts
            invariant
                p <= m,
                m == out@.len(),
                forall|k: int| 0 <= k < p ==> (#[trigger] out@[k]).ts >= v.ts,
            decreases m - p,
        {
            p += 1;
        }
        let ghost before = out@;
        out.insert(p, v);
        proof {
            lemma_insert_multiset(before, p as int, v);
            let t = rows@.take(i as int + 1);
            assert(t.drop_last() =~= rows@.take(i as int));
            assert(t.last() == rows@[i as int]);
            assert(t.drop_last().push(t.last()) =~= t);
            vstd::seq_lib::to_multiset_build::<Record>(t.drop_last(), t.last());
            assert(out@.to_multiset() =~= rows@.take(i as int + 1).to_multiset());
            assert forall|a: int, b: int| 0 <= a < b < out@.len() implies out@[a].ts
                >= out@[b].ts by {
                if b <= p {
                    if b < p {
                        assert(out@[a] == before[a] && out@[b] == before[b]);
                    } else {
                        assert(out@[a] == before[a] && out@[b] == v);
                    }
                } else if a < p {
                    assert(out@[a] == before[a] && out@[b] == before[b - 1]);
                    if p < m {
                        assert(before[p as int].ts < v.ts);
                    }
                } else if a == p {
                    assert(out@[a] == v && out@[b] == before[b - 1]);
                    assert(before[p as int].ts < v.ts);
                } else {
                    assert(out@[a] == before[a - 1] && out@[b] == before[b - 1]);
                }
            }
        }
        i += 1;
    }
    proof {
        assert(rows@.take(n as int) =~= rows@);
    }
    out
}

/// Compacts a plain stream: the full merge-sort. Every input row appears in
/// the output exactly as often as it came in — compaction gains and loses
/// nothing, so compacting already-compacted content reproduces the same row
/// set — and the output is ordered newest first.
pub fn compact_plain(rows: &Vec<Record>) -> (r: Vec<Record>)
    ensures
        r@.to_multiset() == rows@.to_multiset(),
        r@.len() == rows@.len(),
        spec_sorted_desc(r@),
{
    sort_by_time_desc(rows)
}

/// Law: the plain merge template is idempotent up to ordering-insensitive
/// content. Each pass preserves the row multiset, so a second compaction of
/// already-compacted rows carries exactly the rows the input had — none
/// gained, none lost.
pub proof fn lemma_plain_merge_idempotent(
    rows: Seq<Record>,
    once: Seq<Record>,
    twice: Seq<Record>,
)
    requires
        once.to_multiset() == rows.to_multiset(),
        twice.to_multiset() == once.to_multiset(),
    ensures
        twice.to_multiset() == rows.to_multiset(),
{
}

/// The file names marked deleted somewhere in the input.
pub open spec fn spec_deleted_names(rows: Seq<Record>) -> Set<u64> {
    Set::new(
        |n: u64|
            exists|i: int|
                0 <= i < rows.len() && (#[trigger] rows[i]).deleted && rows[i].file_name == n,
    )
}

/// The rows whose file name avoids a banned set, in input order.
pub open spec fn spec_restrict(rows: Seq<Record>, banned: Set<u64>) -> Seq<Record>
    decreases rows.len(),
{
    if rows.len() == 0 {
        Seq::empty()
    } else {
        let rest = spec_restrict(rows.drop_last(), banned);
        if !banned.contains(rows.last().file_name) {
            rest.push(rows.last())
        } else {
            rest
        }
    }
}

/// What the index-stream template keeps: every row whose file name never
/// appears among the deleted ones.
pub open spec fn spec_index_content(rows: Seq<Record>) -> Seq<Record> {
    spec_restrict(rows, spec_deleted_names(rows))
}

/// A file name that survives reconciliation: referenced by some row and
/// never marked deleted.
pub open spec fn spec_is_survivor(rows: Seq<Record>, n: u64) -> bool {
    !spec_deleted_names(rows).contains(n) && exists|i: int|
        0 <= i < rows.len() && (#[trigger] rows[i]).file_name == n
}

/// No two distinct non-deleted rows reference the same file name.
pub open spec fn spec_unique_survivors(rows: Seq<Record>) -> bool {
    forall|i: int, j: int|
        0 <= i < j < rows.len() && !(#[trigger] rows[i]).deleted && !(#[trigger] rows[j]).deleted
            ==> rows[i].file_name != rows[j].file_name
}

/// Does a list contain an identifier.
fn contains_u64(v: &Vec<u64>, x: u64) -> (r: bool)
    ensures
        r == v@.contains(x),
{
    let n = v.len();
    let mut i: usize = 0;
    while i < n
        invariant
            i <= n,
            n == v@.len(),
            forall|k: int| 0 <= k < i ==> v@[k] != x,
        decreases n - i,
    {
        if v[i] == x {
            return true;
        }
        i += 1;
    }
    false
}

/// Collects the file names marked deleted.
fn collect_deleted(rows: &Vec<Record>) -> (r: Vec<u64>)
    ensures
        forall|n: u64| r@.contains(n) <==> spec_deleted_names(rows@).contains(n),
{
    let n = rows.len();
    let mut dels: Vec<u64> = Vec::new();
    let mut i: usize = 0;
    while i < n
        invariant
            i <= n,
            n == rows@.len(),
            forall|x: u64|
                dels@.contains(x) <==> spec_deleted_names(rows@.take(i as int)).contains(x),
        decreases n - i,
    {
        let ghost before = dels@;
        let row = rows[i];
        if row.deleted {
            dels.push(row.file_name);
        }
        proof {
            assert forall|x: u64|
                dels@.contains(x) <==> spec_deleted_names(rows@.take(i as int + 1)).contains(
                    x,
                ) by {
                if row.deleted {
                    assert(dels@.drop_last() =~= before);
                    if dels@.contains(x) {
                        if x == row.file_name {
                            assert(rows@.take(i as int + 1)[i as int] == rows@[i as int]);
                            assert(spec_deleted_names(rows@.take(i as int + 1)).contains(x));
                        } else {
                            let k = choose|k: int| 0 <= k < dels@.len() && dels@[k] == x;
                            assert(before[k] == x || dels@.last() == x);
                            assert(before.contains(x));
                            let w = choose|w: int|
                                0 <= w < rows@.take(i as int).len() && (#[trigger] rows@.take(
                                    i as int,
                                )[w]).deleted && rows@.take(i as int)[w].file_name == x;
                            assert(rows@.take(i as int + 1)[w] == rows@.take(i as int)[w]);
                            assert(spec_deleted_names(rows@.take(i as int + 1)).contains(x));
                        }
                    }
                    if spec_deleted_names(rows@.take(i as int + 1)).contains(x) {
                        let w = choose|w: int|
                            0 <= w < rows@.take(i as int + 1).len() && (#[trigger] rows@.take(
                                i as int + 1,
                            )[w]).deleted && rows@.take(i as int + 1)[w].file_name == x;
                        if w < i {
                            assert(rows@.take(i as int)[w] == rows@.take(i as int + 1)[w]);
                            assert(spec_deleted_names(rows@.take(i as int)).contains(x));
                            assert(before.contains(x));
                            let k = choose|k: int| 0 <= k < before.len() && before[k] == x;
                            assert(dels@[k] == x);
                        } else {
                            assert(rows@.take(i as int + 1)[w] == rows@[i as int]);
                            assert(x == row.file_name);
                            assert(dels@.last() == x);
                        }
                    }
                } else {
                    if spec_deleted_names(rows@.take(i as int + 1)).contains(x) {
                        let w = choose|w: int|
                            0 <= w < rows@.take(i as int + 1).len() && (#[trigger] rows@.take(
                                i as int + 1,
                            )[w]).deleted && rows@.take(i as int + 1)[w].file_name == x;
                        assert(w != i);
                        assert(rows@.take(i as int)[w] == rows@.take(i as int + 1)[w]);
                        assert(spec_deleted_names(rows@.take(i as int)).contains(x));
                    }
                    if spec_deleted_names(rows@.take(i as int)).contains(x) {
                        let w = choose|w: int|
                            0 <= w < rows@.take(i as int).len() && (#[trigger] rows@.take(
                                i as int,
                            )[w]).deleted && rows@.take(i as int)[w].file_name == x;
                        assert(rows@.take(i as int + 1)[w] == rows@.take(i as int)[w]);
                        assert(spec_deleted_names(rows@.take(i as int + 1)).contains(x));
                    }
                }
            }
        }
        i += 1;
    }
    proof {
        assert(rows@.take(n as int) =~= rows@);
    }
    dels
}

/// Compacts an index stream: reconciles soft-deletes, then orders newest
/// first.
///
/// A file name marked deleted anywhere in the input never appears in the
/// output. A surviving file name appears at least once; when no two distinct
/// non-deleted rows share a file name, it appears exactly once. The output
/// is, up to order, exactly the input rows whose file name was never marked
/// deleted.
#[verifier::rlimit(60)]
pub fn compact_index(rows: &Vec<Record>) -> (r: Vec<Record>)
    ensures
        r@.to_multiset() == spec_index_content(rows@).to_multiset(),
        spec_sorted_desc(r@),
        forall|k: int|
            0 <= k < r@.len() ==> !spec_deleted_names(rows@).contains(
                (#[trigger] r@[k]).file_name,
            ),
        forall|k: int| 0 <= k < r@.len() ==> !(#[trigger] r@[k]).deleted,
        forall|n: u64|
            spec_is_survivor(rows@, n) ==> exists|k: int|
                0 <= k < r@.len() && (#[trigger] r@[k]).file_name == n,
        spec_unique_survivors(rows@) ==> forall|i: int, j: int|
            0 <= i < j < r@.len() ==> (#[trigger] r@[i]).file_name != (#[trigger] r@[j]).file_name,
{
    broadcast use vstd::seq_lib::group_to_multiset_ensures;

    let ghost del_set = spec_deleted_names(rows@);
    let dels = collect_deleted(rows);
    let n = rows.len();
    let mut survivors: Vec<Record> = Vec::new();
    let mut i: usize = 0;
    while i < n
        invariant
            i <= n,
            n == rows@.len(),
            del_set == spec_deleted_names(rows@),
            forall|x: u64| dels@.contains(x) <==> del_set.contains(x),
            survivors@ == spec_restrict(rows@.take(i as int), del_set),
            forall|k: int|
                0 <= k < survivors@.len() ==> !del_set.contains(
                    (#[trigger] survivors@[k]).file_name,
                ),
            forall|k: int|
                0 <= k < survivors@.len() ==> exists|o: int|
                    0 <= o < i && #[trigger] survivors@[k] == rows@[o],
            forall|j: int|
                0 <= j < i && !del_set.contains((#[trigger] rows@[j]).file_name) ==> exists|k: int|
                    0 <= k < survivors@.len() && (#[trigger] survivors@[k]).file_name
                        == rows@[j].file_name,
        decreases n - i,
    {
        let row = rows[i];
        let ghost before = survivors@;
        let banned = contains_u64(&dels, row.file_name);
        if !banned {
            survivors.push(row);
        }
        proof {
            let t = rows@.take(i as int + 1);
            assert(t.drop_last() =~= rows@.take(i as int));
            assert(t.last() == rows@[i as int]);
            assert(survivors@ == spec_restrict(t, del_set));
            assert forall|j: int|
                0 <= j < i as int + 1 && !del_set.contains(
                    (#[trigger] rows@[j]).file_name,
                ) implies exists|k: int|
                0 <= k < survivors@.len() && (#[trigger] survivors@[k]).file_name
                    == rows@[j].file_name by {
                if j < i as int {
                    let k = choose|k: int|
                        0 <= k < before.len() && (#[trigger] before[k]).file_name
                            == rows@[j].file_name;
                    assert(survivors@[k] == before[k]);
                    assert(survivors@[k].file_name == rows@[j].file_name);
                } else {
                    assert(!banned);
                    assert(survivors@[survivors@.len() - 1] == row);
                }
            }
        }
        i += 1;
    }
    proof {
        assert(rows@.take(n as int) =~= rows@);
    }
    let ghost surv = survivors@;
    let r = sort_by_time_desc(&survivors);
    proof {
        lemma_index_transfer(rows@, del_set, surv, r@);
        if spec_unique_survivors(rows@) {
            lemma_index_unique(rows@, del_set, surv, r@);
        }
    }
    r
}

proof fn lemma_index_transfer(rows: Seq<Record>, del: Set<u64>, surv: Seq<Record>, out: Seq<Record>)
    requires
        del == spec_deleted_names(rows),
        out.to_multiset() == surv.to_multiset(),
        forall|k: int|
            0 <= k < surv.len() ==> !del.contains((#[trigger] surv[k]).file_name),
        forall|k: int|
            0 <= k < surv.len() ==> exists|o: int|
                0 <= o < rows.len() && #[trigger] surv[k] == rows[o],
        forall|j: int|
            0 <= j < rows.len() && !del.contains((#[trigger] rows[j]).file_name) ==> exists|k: int|
                0 <= k < surv.len() && (#[trigger] surv[k]).file_name == rows[j].file_name,
    ensures
        forall|k: int| 0 <= k < out.len() ==> !del.contains((#[trigger] out[k]).file_name),
        forall|k: int| 0 <= k < out.len() ==> !(#[trigger] out[k]).deleted,
        forall|x: u64|
            spec_is_survivor(rows, x) ==> exists|k: int|
                0 <= k < out.len() && (#[trigger] out[k]).file_name == x,
{
    broadcast use vstd::seq_lib::group_to_multiset_ensures;

    assert forall|k: int| 0 <= k < out.len() implies !del.contains((#[trigger] out[k]).file_name)
        && !out[k].deleted by {
        assert(out.contains(out[k]));
        assert(out.to_multiset().count(out[k]) > 0);
        assert(surv.to_multiset().count(out[k]) > 0);
        assert(surv.contains(out[k]));
        let m = choose|m: int| 0 <= m < surv.len() && surv[m] == out[k];
        assert(!del.contains(surv[m].file_name));
        let o = choose|o: int| 0 <= o < rows.len() && surv[m] == rows[o];
        if out[k].deleted {
            assert(rows[o].deleted && rows[o].file_name == out[k].file_name);
            assert(del.contains(out[k].file_name));
        }
    }
    assert forall|x: u64| spec_is_survivor(rows, x) implies exists|k: int|
        0 <= k < out.len() && (#[trigger] out[k]).file_name == x by {
        let j = choose|j: int| 0 <= j < rows.len() && (#[trigger] rows[j]).file_name == x;
        let k = choose|k: int|
            0 <= k < surv.len() && (#[trigger] surv[k]).file_name == rows[j].file_name;
        assert(surv.contains(surv[k]));
        assert(surv.to_multiset().count(surv[k]) > 0);
        assert(out.to_multiset().count(surv[k]) > 0);
        assert(out.contains(surv[k]));
        let m = choose|m: int| 0 <= m < out.len() && out[m] == surv[k];
        assert(out[m].file_name == x);
    }
}

proof fn lemma_index_unique(rows: Seq<Record>, del: Set<u64>, surv: Seq<Record>, out: Seq<Record>)
    requires
        spec_unique_survivors(rows),
        del == spec_deleted_names(rows),
        surv == spec_restrict(rows, del),
        out.to_multiset() == surv.to_multiset(),
    ensures
        forall|i: int, j: int|
            0 <= i < j < out.len() ==> (#[trigger] out[i]).file_name != (
            #[trigger] out[j]).file_name,
{
    broadcast use vstd::seq_lib::group_to_multiset_ensures;

    assert forall|i: int|
        0 <= i < rows.len() && (#[trigger] rows[i]).deleted implies del.contains(
        rows[i].file_name,
    ) by {}
    lemma_restrict_distinct_names(rows, del);
    assert forall|a: int, b: int| 0 <= a < b < out.len() implies (#[trigger] out[a]).file_name != (
    #[trigger] out[b]).file_name by {
        if out[a].file_name == out[b].file_name {
            assert(out.contains(out[a]));
            assert(out.to_multiset().count(out[a]) > 0);
            assert(surv.to_multiset().count(out[a]) > 0);
            assert(surv.contains(out[a]));
            assert(out.contains(out[b]));
            assert(out.to_multiset().count(out[b]) > 0);
            assert(surv.to_multiset().count(out[b]) > 0);
            assert(surv.contains(out[b]));
            if out[a] == out[b] {
                lemma_dup_count(out, a, b);
                assert(surv.no_duplicates()) by {
                    assert forall|p: int, q: int|
                        0 <= p < surv.len() && 0 <= q < surv.len() && p != q implies surv[p]
                        != surv[q] by {
                        if p < q {
                            assert(surv[p].file_name != surv[q].file_name);
                        } else {
                            assert(surv[q].file_name != surv[p].file_name);
                        }
                    }
                }
                surv.lemma_multiset_has_no_duplicates();
                assert(surv.to_multiset().count(out[a]) == 1);
                assert(false);
            } else {
                let pa = choose|p: int| 0 <= p < surv.len() && surv[p] == out[a];
                let pb = choose|p: int| 0 <= p < surv.len() && surv[p] == out[b];
                assert(pa != pb);
                if pa < pb {
                    assert(surv[pa].file_name != surv[pb].file_name);
                } else {
                    assert(surv[pb].file_name != surv[pa].file_name);
                }
                assert(false);
            }
        }
    }
}

proof fn lemma_restrict_members(rows: Seq<Record>, banned: Set<u64>)
    ensures
        forall|k: int|
            0 <= k < spec_restrict(rows, banned).len() ==> !banned.contains(
                (#[trigger] spec_restrict(rows, banned)[k]).file_name,
            ) && exists|i: int|
                0 <= i < rows.len() && spec_restrict(rows, banned)[k] == rows[i],
    decreases rows.len(),
{
    if rows.len() > 0 {
        let rest = rows.drop_last();
        lemma_restrict_members(rest, banned);
        let rr = spec_restrict(rest, banned);
        let whole = spec_restrict(rows, banned);
        assert forall|k: int| 0 <= k < whole.len() implies !banned.contains(
            (#[trigger] whole[k]).file_name,
        ) && exists|i: int| 0 <= i < rows.len() && whole[k] == rows[i] by {
            if k < rr.len() {
                assert(whole[k] == rr[k]);
                let i = choose|i: int| 0 <= i < rest.len() && rr[k] == rest[i];
                assert(rows[i] == rest[i]);
            } else {
                assert(whole[k] == rows.last());
                assert(rows[rows.len() - 1] == rows.last());
            }
        }
    }
}

proof fn lemma_restrict_all_pass(rows: Seq<Record>, banned: Set<u64>)
    requires
        forall|k: int|
            0 <= k < rows.len() ==> !banned.contains((#[trigger] rows[k]).file_name),
    ensures
        spec_restrict(rows, banned) == rows,
    decreases rows.len(),
{
    if rows.len() > 0 {
        let rest = rows.drop_last();
        assert forall|k: int|
            0 <= k < rest.len() implies !banned.contains((#[trigger] rest[k]).file_name) by {
            assert(rest[k] == rows[k]);
        }
        lemma_restrict_all_pass(rest, banned);
        assert(rows[rows.len() - 1] == rows.last());
        assert(spec_restrict(rows, banned) =~= rows);
    }
}

/// Law: index-stream reconciliation is idempotent. Its output carries no
/// deleted rows and references no deleted file name, so compacting an
/// already-compacted index segment reproduces exactly the same rows.
pub proof fn lemma_index_compact_idempotent(rows: Seq<Record>)
    ensures
        spec_index_content(spec_index_content(rows)) == spec_index_content(rows),
{
    let del = spec_deleted_names(rows);
    let c = spec_index_content(rows);
    lemma_restrict_members(rows, del);
    assert forall|k: int| 0 <= k < c.len() implies !(#[trigger] c[k]).deleted by {
        let i = choose|i: int| 0 <= i < rows.len() && c[k] == rows[i];
        if c[k].deleted {
            assert(rows[i].deleted && rows[i].file_name == c[k].file_name);
            assert(del.contains(c[k].file_name));
        }
    }
    assert forall|x: u64| !spec_deleted_names(c).contains(x) by {
        if spec_deleted_names(c).contains(x) {
            let w = choose|w: int|
                0 <= w < c.len() && (#[trigger] c[w]).deleted && c[w].file_name == x;
        }
    }
    assert forall|k: int|
        0 <= k < c.len() implies !spec_deleted_names(c).contains(
        (#[trigger] c[k]).file_name,
    ) by {}
    lemma_restrict_all_pass(c, spec_deleted_names(c));
}

/// Some row carries this group key.
pub open spec fn spec_has_key(s: Seq<Record>, k: u64) -> bool {
    exists|i: int| 0 <= i < s.len() && (#[trigger] s[i]).group_key == k
}

/// Sum of the counts of the rows carrying a group key.
pub open spec fn spec_sum_count(s: Seq<Record>, k: u64) -> int
    decreases s.len(),
{
    if s.len() == 0 {
        0
    } else {
        spec_sum_count(s.drop_last(), k) + if s.last().group_key == k {
            s.last().count as int
        } else {
            0
        }
    }
}

/// Minimum time among the rows carrying a group key.
pub open spec fn spec_min_ts(s: Seq<Record>, k: u64) -> int
    decreases s.len(),
{
    if s.len() == 0 {
        0
    } else if s.last().group_key == k {
        if spec_has_key(s.drop_last(), k) {
            spec_imin(spec_min_ts(s.drop_last(), k), s.last().ts as int)
        } else {
            s.last().ts as int
        }
    } else {
        spec_min_ts(s.drop_last(), k)
    }
}

/// Sum of every row's count.
pub open spec fn spec_total_count(s: Seq<Record>) -> int
    decreases s.len(),
{
    if s.len() == 0 {
        0
    } else {
        spec_total_count(s.drop_last()) + s.last().count as int
    }
}

/// No two distinct rows carry the same group key.
pub open spec fn spec_unique_keys(s: Seq<Record>) -> bool {
    forall|i: int, j: int|
        0 <= i < j < s.len() ==> (#[trigger] s[i]).group_key != (#[trigger] s[j]).group_key
}

proof fn lemma_sum_le_total(s: Seq<Record>, k: u64)
    ensures
        0 <= spec_sum_count(s, k) <= spec_total_count(s),
    decreases s.len(),
{
    if s.len() > 0 {
        lemma_sum_le_total(s.drop_last(), k);
    }
}

proof fn lemma_total_take_le(s: Seq<Record>, i: int)
    requires
        0 <= i <= s.len(),
    ensures
        spec_total_count(s.take(i)) <= spec_total_count(s),
    decreases s.len() - i,
{
    if i < s.len() {
        let t = s.take(i + 1);
        assert(t.drop_last() =~= s.take(i));
        assert(t.last() == s[i]);
        lemma_total_take_le(s, i + 1);
    } else {
        assert(s.take(i) =~= s);
    }
}

proof fn lemma_no_key_sum_zero(s: Seq<Record>, k: u64)
    requires
        !spec_has_key(s, k),
    ensures
        spec_sum_count(s, k) == 0,
    decreases s.len(),
{
    if s.len() > 0 {
        assert(s[s.len() - 1] == s.last());
        assert(s.last().group_key != k);
        assert forall|i: int|
            0 <= i < s.drop_last().len() implies (#[trigger] s.drop_last()[i]).group_key != k by {
            assert(s.drop_last()[i] == s[i]);
        }
        lemma_no_key_sum_zero(s.drop_last(), k);
    }
}

proof fn lemma_unique_key_fixpoint(s: Seq<Record>, i: int)
    requires
        spec_unique_keys(s),
        0 <= i < s.len(),
    ensures
        spec_sum_count(s, s[i].group_key) == s[i].count as int,
        spec_min_ts(s, s[i].group_key) == s[i].ts as int,
    decreases s.len(),
{
    let k = s[i].group_key;
    if i == s.len() - 1 {
        assert(s.last() == s[i]);
        assert(!spec_has_key(s.drop_last(), k)) by {
            if spec_has_key(s.drop_last(), k) {
                let w = choose|w: int|
                    0 <= w < s.drop_last().len() && (#[trigger] s.drop_last()[w]).group_key == k;
                assert(s[w] == s.drop_last()[w]);
                assert(s[w].group_key == s[i].group_key);
            }
        }
        lemma_no_key_sum_zero(s.drop_last(), k);
    } else {
        assert(s.last() == s[s.len() - 1]);
        assert(s.last().group_key != k);
        assert forall|a: int, b: int|
            0 <= a < b < s.drop_last().len() implies (#[trigger] s.drop_last()[a]).group_key != (
        #[trigger] s.drop_last()[b]).group_key by {
            assert(s.drop_last()[a] == s[a] && s.drop_last()[b] == s[b]);
        }
        assert(s.drop_last()[i] == s[i]);
        lemma_unique_key_fixpoint(s.drop_last(), i);
    }
}

/// Finds the group row carrying a key.
fn find_group(groups: &Vec<Record>, key: u64) -> (r: Option<usize>)
    ensures
        r matches Some(j) ==> j < groups@.len() && groups@[j as int].group_key == key,
        r is None ==> !spec_has_key(groups@, key),
{
    let n = groups.len();
    let mut i: usize = 0;
    while i < n
        invariant
            i <= n,
            n == groups@.len(),
            forall|k: int| 0 <= k < i ==> (#[trigger] groups@[k]).group_key != key,
        decreases n - i,
    {
        if groups[i].group_key == key {
            return Some(i);
        }
        i += 1;
    }
    None
}

proof fn lemma_restrict_distinct_names(rows: Seq<Record>, banned: Set<u64>)
    requires
        spec_unique_survivors(rows),
        forall|i: int|
            0 <= i < rows.len() && (#[trigger] rows[i]).deleted ==> banned.contains(
                rows[i].file_name,
            ),
    ensures
        forall|k: int|
            0 <= k < spec_restrict(rows, banned).len() ==> !(#[trigger] spec_restrict(
                rows,
                banned,
            )[k]).deleted && exists|i: int|
                0 <= i < rows.len() && spec_restrict(rows, banned)[k] == rows[i],
        forall|a: int, b: int|
            0 <= a < b < spec_restrict(rows, banned).len() ==> (#[trigger] spec_restrict(
                rows,
                banned,
            )[a]).file_name != (#[trigger] spec_restrict(rows, banned)[b]).file_name,
    decreases rows.len(),
{
    if rows.len() > 0 {
        let rest = rows.drop_last();
        assert forall|i: int, j: int|
            0 <= i < j < rest.len() && !(#[trigger] rest[i]).deleted
                && !(#[trigger] rest[j]).deleted implies rest[i].file_name
            != rest[j].file_name by {
            assert(rest[i] == rows[i] && rest[j] == rows[j]);
        }
        assert forall|i: int|
            0 <= i < rest.len() && (#[trigger] rest[i]).deleted implies banned.contains(
            rest[i].file_name,
        ) by {
            assert(rest[i] == rows[i]);
        }
        lemma_restrict_distinct_names(rest, banned);
        let rr = spec_restrict(rest, banned);
        let whole = spec_restrict(rows, banned);
        let last = rows.last();
        if !banned.contains(last.file_name) {
            assert(whole == rr.push(last));
            assert(!last.deleted);
            assert forall|k: int| 0 <= k < whole.len() implies !(#[trigger] whole[k]).deleted
                && exists|i: int| 0 <= i < rows.len() && whole[k] == rows[i] by {
                if k < rr.len() {
                    assert(whole[k] == rr[k]);
                    let i = choose|i: int| 0 <= i < rest.len() && rr[k] == rest[i];
                    assert(rows[i] == rest[i]);
                } else {
                    assert(whole[k] == last);
                    assert(rows[rows.len() - 1] == last);
                }
            }
            assert forall|a: int, b: int|
                0 <= a < b < whole.len() implies (#[trigger] whole[a]).file_name
                != (#[trigger] whole[b]).file_name by {
                if b < rr.len() {
                    assert(whole[a] == rr[a] && whole[b] == rr[b]);
                } else {
                    assert(whole[a] == rr[a] && whole[b] == last);
                    let i = choose|i: int| 0 <= i < rest.len() && rr[a] == rest[i];
                    assert(!rows[i].deleted && !rows[rows.len() - 1].deleted);
                    assert(rows[i].file_name != rows[rows.len() - 1].file_name);
                }
            }
        } else {
            assert(whole == rr);
            assert forall|k: int| 0 <= k < whole.len() implies !(#[trigger] whole[k]).deleted
                && exists|i: int| 0 <= i < rows.len() && whole[k] == rows[i] by {
                let i = choose|i: int| 0 <= i < rest.len() && rr[k] == rest[i];
                assert(rows[i] == rest[i]);
            }
        }
    }
}

/// Compacts an hourly distinct-values stream: one output row per group key,
/// carrying the minimum contributing time and the summed count, ordered
/// newest first.
///
/// Every input group key appears exactly once. When the input already
/// carries one row per key — it was rolled up before — the output is exactly
/// the input rows, so the rollup is idempotent up to order.
#[verifier::rlimit(60)]
pub fn compact_distinct(rows: &Vec<Record>) -> (r: Vec<Record>)
    requires
        spec_total_count(rows@) <= u64::MAX,
    ensures
        spec_sorted_desc(r@),
        forall|i: int, j: int|
            0 <= i < j < r@.len() ==> (#[trigger] r@[i]).group_key != (
            #[trigger] r@[j]).group_key,
        forall|k: int| 0 <= k < r@.len() ==> spec_has_key(rows@, (#[trigger] r@[k]).group_key),
        forall|k: int|
            0 <= k < r@.len() ==> (#[trigger] r@[k]).count as int == spec_sum_count(
                rows@,
                r@[k].group_key,
            ),
        forall|k: int|
            0 <= k < r@.len() ==> (#[trigger] r@[k]).ts as int == spec_min_ts(
                rows@,
                r@[k].group_key,
            ),
        forall|x: u64|
            spec_has_key(rows@, x) ==> exists|k: int|
                0 <= k < r@.len() && (#[trigger] r@[k]).group_key == x,
        spec_unique_keys(rows@) ==> forall|x: Record| r@.contains(x) <==> rows@.contains(x),
{
    let n = rows.len();
    let mut groups: Vec<Record> = Vec::new();
    let mut i: usize = 0;
    while i < n
        invariant
            i <= n,
            n == rows@.len(),
            spec_total_count(rows@) <= u64::MAX,
            forall|a: int, b: int|
                0 <= a < b < groups@.len() ==> (#[trigger] groups@[a]).group_key != (
                #[trigger] groups@[b]).group_key,
            forall|j: int|
                0 <= j < groups@.len() ==> spec_has_key(
                    rows@.take(i as int),
                    (#[trigger] groups@[j]).group_key,
                ),
            forall|x: u64|
                spec_has_key(rows@.take(i as int), x) ==> exists|j: int|
                    0 <= j < groups@.len() && (#[trigger] groups@[j]).group_key == x,
            forall|j: int|
                0 <= j < groups@.len() ==> (#[trigger] groups@[j]).count as int == spec_sum_count(
                    rows@.take(i as int),
                    groups@[j].group_key,
                ),
            forall|j: int|
                0 <= j < groups@.len() ==> (#[trigger] groups@[j]).ts as int == spec_min_ts(
                    rows@.take(i as int),
                    groups@[j].group_key,
                ),
            forall|j: int|
                0 <= j < groups@.len() ==> exists|o: int|
                    0 <= o < i && rows@[o].group_key == (#[trigger] groups@[j]).group_key
                        && groups@[j].file_name == rows@[o].file_name && groups@[j].deleted
                        == rows@[o].deleted,
        decreases n - i,
    {
        let row = rows[i];
        let ghost t = rows@.take(i as int);
        let ghost t1 = rows@.take(i as int + 1);
        let ghost before = groups@;
        proof {
            assert(t1.drop_last() =~= t);
            assert(t1.last() == rows@[i as int]);
        }
        match find_group(&groups, row.group_key) {
            Some(j) => {
                let g = groups[j];
                proof {
                    lemma_sum_le_total(t1, row.group_key);
                    lemma_total_take_le(rows@, i as int + 1);
                    assert(spec_sum_count(t1, row.group_key) == spec_sum_count(t, row.group_key)
                        + row.count as int);
                    assert(g.count as int + row.count as int <= u64::MAX);
                }
                let new_ts = if row.ts < g.ts {
                    row.ts
                } else {
                    g.ts
                };
                groups[j] = Record {
                    ts: new_ts,
                    file_name: g.file_name,
                    deleted: g.deleted,
                    group_key: g.group_key,
                    count: g.count + row.count,
                };
                proof {
                    assert forall|j2: int|
                        0 <= j2 < groups@.len() && j2 != j implies #[trigger] groups@[j2]
                        == before[j2] by {}
                    assert forall|j2: int|
                        0 <= j2 < groups@.len() implies (#[trigger] groups@[j2]).count as int
                            == spec_sum_count(t1, groups@[j2].group_key) && groups@[j2].ts as int
                            == spec_min_ts(t1, groups@[j2].group_key) && spec_has_key(
                        t1,
                        groups@[j2].group_key,
                    ) by {
                        if j2 == j {
                            assert(spec_has_key(t, row.group_key));
                            assert(spec_min_ts(t1, row.group_key) == spec_imin(
                                spec_min_ts(t, row.group_key),
                                row.ts as int,
                            ));
                            assert(t1[i as int] == rows@[i as int]);
                            assert(spec_has_key(t1, row.group_key));
                        } else {
                            assert(groups@[j2] == before[j2]);
                            assert(before[j2].group_key != before[j as int].group_key);
                            assert(before[j as int].group_key == row.group_key);
                            assert(spec_sum_count(t1, groups@[j2].group_key) == spec_sum_count(
                                t,
                                groups@[j2].group_key,
                            ));
                            assert(spec_min_ts(t1, groups@[j2].group_key) == spec_min_ts(
                                t,
                                groups@[j2].group_key,
                            ));
                            let w = choose|w: int|
                                0 <= w < t.len() && (#[trigger] t[w]).group_key
                                    == groups@[j2].group_key;
                            assert(t1[w] == t[w]);
                            assert(spec_has_key(t1, groups@[j2].group_key));
                        }
                    }
                    assert forall|x: u64| spec_has_key(t1, x) implies exists|j2: int|
                        0 <= j2 < groups@.len() && (#[trigger] groups@[j2]).group_key == x by {
                        let w = choose|w: int|
                            0 <= w < t1.len() && (#[trigger] t1[w]).group_key == x;
                        if w < i as int {
                            assert(t[w] == t1[w]);
                            assert(spec_has_key(t, x));
                            let j2 = choose|j2: int|
                                0 <= j2 < before.len() && (#[trigger] before[j2]).group_key == x;
                            assert(groups@[j2].group_key == x);
                        } else {
                            assert(x == row.group_key);
                            assert(groups@[j as int].group_key == x);
                        }
                    }
                    assert forall|j2: int| 0 <= j2 < groups@.len() implies exists|o: int|
                        0 <= o < i as int + 1 && rows@[o].group_key
                            == (#[trigger] groups@[j2]).group_key && groups@[j2].file_name
                            == rows@[o].file_name && groups@[j2].deleted == rows@[o].deleted by {
                        let o = choose|o: int|
                            0 <= o < i as int && rows@[o].group_key == before[j2].group_key
                                && before[j2].file_name == rows@[o].file_name && before[j2].deleted
                                == rows@[o].deleted;
                        assert(0 <= o < i as int + 1 && rows@[o].group_key
                            == groups@[j2].group_key && groups@[j2].file_name
                            == rows@[o].file_name && groups@[j2].deleted == rows@[o].deleted);
                    }
                }
            },
            None => {
                groups.push(row);
                proof {
                    lemma_no_key_sum_zero(t, row.group_key);
                    assert(groups@.drop_last() =~= before);
                    assert forall|j2: int|
                        0 <= j2 < groups@.len() implies (#[trigger] groups@[j2]).count as int
                            == spec_sum_count(t1, groups@[j2].group_key) && groups@[j2].ts as int
                            == spec_min_ts(t1, groups@[j2].group_key) && spec_has_key(
                        t1,
                        groups@[j2].group_key,
                    ) by {
                        if j2 == groups@.len() - 1 {
                            assert(groups@[j2] == row);
                            assert(!spec_has_key(t, row.group_key));
                            assert(t1[i as int] == rows@[i as int]);
                            assert(spec_has_key(t1, row.group_key));
                        } else {
                            assert(groups@[j2] == before[j2]);
                            assert(spec_has_key(t, before[j2].group_key));
                            assert(before[j2].group_key != row.group_key);
                            assert(spec_sum_count(t1, groups@[j2].group_key) == spec_sum_count(
                                t,
                                groups@[j2].group_key,
                            ));
                            assert(spec_min_ts(t1, groups@[j2].group_key) == spec_min_ts(
                                t,
                                groups@[j2].group_key,
                            ));
                            let w = choose|w: int|
                                0 <= w < t.len() && (#[trigger] t[w]).group_key
                                    == groups@[j2].group_key;
                            assert(t1[w] == t[w]);
                            assert(spec_has_key(t1, groups@[j2].group_key));
                        }
                    }
                    assert forall|x: u64| spec_has_key(t1, x) implies exists|j2: int|
                        0 <= j2 < groups@.len() && (#[trigger] groups@[j2]).group_key == x by {
                        let w = choose|w: int|
                            0 <= w < t1.len() && (#[trigger] t1[w]).group_key == x;
                        if w < i as int {
                            assert(t[w] == t1[w]);
                            assert(spec_has_key(t, x));
                            let j2 = choose|j2: int|
                                0 <= j2 < before.len() && (#[trigger] before[j2]).group_key == x;
                            assert(groups@[j2] == before[j2]);
                        } else {
                            assert(x == row.group_key);
                            assert(groups@[groups@.len() - 1].group_key == x);
                        }
                    }
                }
            },
        }
        i += 1;
    }
    proof {
        assert(rows@.take(n as int) =~= rows@);
    }
    let ghost grp = groups@;
    let r = sort_by_time_desc(&groups);
    proof {
        lemma_distinct_transfer(rows@, grp, r@);
        if spec_unique_keys(rows@) {
            lemma_distinct_idempotent(rows@, grp, r@);
        }
    }
    r
}

proof fn lemma_distinct_transfer(rows: Seq<Record>, grp: Seq<Record>, out: Seq<Record>)
    requires
        out.to_multiset() == grp.to_multiset(),
        forall|a: int, b: int|
            0 <= a < b < grp.len() ==> (#[trigger] grp[a]).group_key != (
            #[trigger] grp[b]).group_key,
        forall|j: int| 0 <= j < grp.len() ==> spec_has_key(rows, (#[trigger] grp[j]).group_key),
        forall|x: u64|
            spec_has_key(rows, x) ==> exists|j: int|
                0 <= j < grp.len() && (#[trigger] grp[j]).group_key == x,
        forall|j: int|
            0 <= j < grp.len() ==> (#[trigger] grp[j]).count as int == spec_sum_count(
                rows,
                grp[j].group_key,
            ),
        forall|j: int|
            0 <= j < grp.len() ==> (#[trigger] grp[j]).ts as int == spec_min_ts(
                rows,
                grp[j].group_key,
            ),
    ensures
        forall|i: int, j: int|
            0 <= i < j < out.len() ==> (#[trigger] out[i]).group_key != (
            #[trigger] out[j]).group_key,
        forall|k: int| 0 <= k < out.len() ==> spec_has_key(rows, (#[trigger] out[k]).group_key),
        forall|k: int|
            0 <= k < out.len() ==> (#[trigger] out[k]).count as int == spec_sum_count(
                rows,
                out[k].group_key,
            ),
        forall|k: int|
            0 <= k < out.len() ==> (#[trigger] out[k]).ts as int == spec_min_ts(
                rows,
                out[k].group_key,
            ),
        forall|x: u64|
            spec_has_key(rows, x) ==> exists|k: int|
                0 <= k < out.len() && (#[trigger] out[k]).group_key == x,
{
    broadcast use vstd::seq_lib::group_to_multiset_ensures;

    assert forall|k: int| 0 <= k < out.len() implies spec_has_key(
        rows,
        (#[trigger] out[k]).group_key,
    ) && out[k].count as int == spec_sum_count(rows, out[k].group_key) && out[k].ts as int
        == spec_min_ts(rows, out[k].group_key) by {
        assert(out.contains(out[k]));
        assert(out.to_multiset().count(out[k]) > 0);
        assert(grp.to_multiset().count(out[k]) > 0);
        assert(grp.contains(out[k]));
        let m = choose|m: int| 0 <= m < grp.len() && grp[m] == out[k];
        assert(grp[m].count as int == spec_sum_count(rows, grp[m].group_key));
    }
    assert forall|x: u64| spec_has_key(rows, x) implies exists|k: int|
        0 <= k < out.len() && (#[trigger] out[k]).group_key == x by {
        let j = choose|j: int| 0 <= j < grp.len() && (#[trigger] grp[j]).group_key == x;
        assert(grp.contains(grp[j]));
        assert(grp.to_multiset().count(grp[j]) > 0);
        assert(out.to_multiset().count(grp[j]) > 0);
        assert(out.contains(grp[j]));
        let m = choose|m: int| 0 <= m < out.len() && out[m] == grp[j];
        assert(out[m].group_key == x);
    }
    assert forall|a: int, b: int| 0 <= a < b < out.len() implies (#[trigger] out[a]).group_key != (
    #[trigger] out[b]).group_key by {
        if out[a].group_key == out[b].group_key {
            assert(out.contains(out[a]));
            assert(out.to_multiset().count(out[a]) > 0);
            assert(grp.to_multiset().count(out[a]) > 0);
            assert(grp.contains(out[a]));
            assert(out.contains(out[b]));
            assert(out.to_multiset().count(out[b]) > 0);
            assert(grp.to_multiset().count(out[b]) > 0);
            assert(grp.contains(out[b]));
            if out[a] == out[b] {
                lemma_dup_count(out, a, b);
                assert(grp.no_duplicates()) by {
                    assert forall|p: int, q: int|
                        0 <= p < grp.len() && 0 <= q < grp.len() && p != q implies grp[p]
                        != grp[q] by {
                        if p < q {
                            assert(grp[p].group_key != grp[q].group_key);
                        } else {
                            assert(grp[q].group_key != grp[p].group_key);
                        }
                    }
                }
                grp.lemma_multiset_has_no_duplicates();
                assert(grp.to_multiset().count(out[a]) == 1);
                assert(false);
            } else {
                let pa = choose|p: int| 0 <= p < grp.len() && grp[p] == out[a];
                let pb = choose|p: int| 0 <= p < grp.len() && grp[p] == out[b];
                assert(pa != pb);
                if pa < pb {
                    assert(grp[pa].group_key != grp[pb].group_key);
                } else {
                    assert(grp[pb].group_key != grp[pa].group_key);
                }
                assert(false);
            }
        }
    }
}

proof fn lemma_distinct_idempotent(rows: Seq<Record>, grp: Seq<Record>, out: Seq<Record>)
    requires
        spec_unique_keys(rows),
        out.to_multiset() == grp.to_multiset(),
        forall|x: u64|
            spec_has_key(rows, x) ==> exists|j: int|
                0 <= j < grp.len() && (#[trigger] grp[j]).group_key == x,
        forall|j: int|
            0 <= j < grp.len() ==> (#[trigger] grp[j]).count as int == spec_sum_count(
                rows,
                grp[j].group_key,
            ),
        forall|j: int|
            0 <= j < grp.len() ==> (#[trigger] grp[j]).ts as int == spec_min_ts(
                rows,
                grp[j].group_key,
            ),
        forall|j: int|
            0 <= j < grp.len() ==> exists|o: int|
                0 <= o < rows.len() && rows[o].group_key == (#[trigger] grp[j]).group_key
                    && grp[j].file_name == rows[o].file_name && grp[j].deleted == rows[o].deleted,
    ensures
        forall|x: Record| out.contains(x) <==> rows.contains(x),
{
    broadcast use vstd::seq_lib::group_to_multiset_ensures;

    assert forall|j: int| 0 <= j < grp.len() implies exists|o: int|
        0 <= o < rows.len() && #[trigger] grp[j] == rows[o] by {
        let o = choose|o: int|
            0 <= o < rows.len() && rows[o].group_key == grp[j].group_key && grp[j].file_name
                == rows[o].file_name && grp[j].deleted == rows[o].deleted;
        lemma_unique_key_fixpoint(rows, o);
        assert(grp[j].count as int == rows[o].count as int);
        assert(grp[j].ts as int == rows[o].ts as int);
        assert(grp[j] == rows[o]);
    }
    assert forall|x: Record| out.contains(x) <==> rows.contains(x) by {
        if out.contains(x) {
            assert(out.to_multiset().count(x) > 0);
            assert(grp.to_multiset().count(x) > 0);
            assert(grp.contains(x));
            let j = choose|j: int| 0 <= j < grp.len() && grp[j] == x;
            let o = choose|o: int| 0 <= o < rows.len() && grp[j] == rows[o];
            assert(rows[o] == x);
            assert(rows.contains(x));
        }
        if rows.contains(x) {
            let i = choose|i: int| 0 <= i < rows.len() && rows[i] == x;
            assert(rows[i].group_key == x.group_key);
            assert(spec_has_key(rows, x.group_key));
            let j = choose|j: int|
                0 <= j < grp.len() && (#[trigger] grp[j]).group_key == x.group_key;
            let o = choose|o: int| 0 <= o < rows.len() && grp[j] == rows[o];
            assert(rows[o].group_key == rows[i].group_key);
            if o != i {
                if o < i {
                    assert(rows[o].group_key != rows[i].group_key);
                } else {
                    assert(rows[i].group_key != rows[o].group_key);
                }
            }
            assert(grp[j] == x);
            assert(grp.contains(grp[j]));
            assert(grp.to_multiset().count(x) > 0);
            assert(out.to_multiset().count(x) > 0);
            assert(out.contains(x));
        }
    }
}

} // verus!

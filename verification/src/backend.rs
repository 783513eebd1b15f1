//! Materialization of one successful query's backend cursor into uniform
//! rows. The backend's cursor type is opaque here; its contents are named by
//! uninterpreted functions, the methods the logic calls carry contracts over
//! those names, and the loop that captures the column list once — in the
//! backend-declared schema order — and applies it to every row is verified.

use vstd::prelude::*;
use crate::bytes::all_distinct;
use crate::bytes::copy_bytes;
use crate::bytes::distinct_names;
use crate::scalar::Scalar;
use crate::scalar::QueryData;
use gcp_bigquery_client::model::query_response::ResultSet;

verus! {

/// The backend's result-set cursor, opaque to the verifier.
#[verifier::external_type_specification]
#[verifier::external_body]
pub struct ExResultSet(ResultSet);

/// The column names of one result set, each at the position the backend's
/// declared schema gives it; empty where the job completed without a schema.
pub uninterp spec fn rs_columns(rs: ResultSet) -> Seq<Seq<u8>>;

/// The total number of rows behind the cursor.
pub uninterp spec fn rs_total_rows(rs: ResultSet) -> nat;

/// The cursor's position: before the first row it is one less than zero,
/// afterwards the index of the row it sits on.
pub uninterp spec fn rs_cursor(rs: ResultSet) -> int;

/// The normalized value that row `row` of the result set holds under column
/// `col`; None where the lookup fails or the backend supplies nothing there.
pub uninterp spec fn rs_cell(rs: ResultSet, row: int, col: Seq<u8>) -> Option<Scalar>;

/// Some pair carries schema position `p`.
pub open spec fn has_position(pairs: Seq<(Vec<u8>, Option<usize>)>, p: usize) -> bool {
    exists|k: int| 0 <= k < pairs.len() && (#[trigger] pairs[k]).1 == Some(p)
}

/// An absent cell reads as an explicit null.
pub open spec fn cell_or_null(c: Option<Scalar>) -> Scalar {
    match c {
        Option::Some(v) => v,
        Option::None => Scalar::Null,
    }
}

/// Relies on ResultSet::column_names and ResultSet::column_index: every key
/// of the result set's column map comes out exactly once, paired with its
/// position in the backend-declared schema; positions are pairwise distinct,
/// and with distinct schema names the pairs cover every position.
#[verifier::external_body]
fn result_columns(rs: &mut ResultSet) -> (pairs: Vec<(Vec<u8>, Option<usize>)>)
    ensures
        *final(rs) == *old(rs),
        forall|k: int| 0 <= k < pairs@.len() ==> (#[trigger] pairs@[k]).1 is Some,
        forall|k: int|
            0 <= k < pairs@.len() ==> ((#[trigger] pairs@[k]).1 matches Some(p) ==> p
                < rs_columns(*old(rs)).len() && rs_columns(*old(rs))[p as int] == pairs@[k].0@),
        forall|k1: int, k2: int|
            0 <= k1 < k2 < pairs@.len() ==> (#[trigger] pairs@[k1]).0@ != (#[trigger] pairs@[k2]).0@,
        forall|k1: int, k2: int|
            0 <= k1 < k2 < pairs@.len() ==> (#[trigger] pairs@[k1]).1 != (#[trigger] pairs@[k2]).1,
        all_distinct(rs_columns(*old(rs))) ==> pairs@.len() == rs_columns(*old(rs)).len(),
        all_distinct(rs_columns(*old(rs))) ==> (forall|p: usize|
            (p as int) < rs_columns(*old(rs)).len() ==> #[trigger] has_position(pairs@, p)),
{
    rs.column_names()
        .into_iter()
        .map(|s| {
            let p = rs.column_index(&s).copied();
            (s.into_bytes(), p)
        })
        .collect()
}

/// Relies on ResultSet::row_count: the total number of rows behind the cursor.
#[verifier::external_body]
fn result_row_count(rs: &mut ResultSet) -> (n: usize)
    ensures
        *final(rs) == *old(rs),
        n == rs_total_rows(*old(rs)),
{
    rs.row_count()
}

/// Relies on ResultSet::next_row: moves the cursor forward one row and says
/// whether a row is there; false exactly when the cursor already sits on the
/// last row (or the set is empty), and then nothing changes. The column list
/// and the stored rows are untouched either way.
#[verifier::external_body]
fn advance_row(rs: &mut ResultSet) -> (more: bool)
    ensures
        rs_columns(*final(rs)) == rs_columns(*old(rs)),
        rs_total_rows(*final(rs)) == rs_total_rows(*old(rs)),
        forall|row: int, col: Seq<u8>|
            rs_cell(*final(rs), row, col) == rs_cell(*old(rs), row, col),
        more == (rs_cursor(*old(rs)) != rs_total_rows(*old(rs)) - 1),
        more ==> rs_cursor(*final(rs)) == rs_cursor(*old(rs)) + 1,
        !more ==> *final(rs) == *old(rs),
{
    rs.next_row()
}

/// Relies on ResultSet::get_json_value_by_name: the value under one column of
/// the row the cursor sits on, normalized by kind; None where the lookup
/// fails or the backend supplies nothing. The result set itself is untouched.
#[verifier::external_body]
fn fetch_cell(rs: &mut ResultSet, col: &Vec<u8>) -> (cell: Option<Scalar>)
    ensures
        *final(rs) == *old(rs),
        cell == rs_cell(*old(rs), rs_cursor(*old(rs)), col@),
{
    let name = match std::str::from_utf8(col.as_slice()) {
        Ok(n) => n,
        Err(_) => return None,
    };
    match rs.get_json_value_by_name(name) {
        Ok(Some(serde_json::Value::Null)) => Some(Scalar::Null),
        Ok(Some(serde_json::Value::Bool(b))) => Some(Scalar::Bool(b)),
        Ok(Some(serde_json::Value::Number(n))) => Some(Scalar::Num(n.to_string().into_bytes())),
        Ok(Some(serde_json::Value::String(s))) => Some(Scalar::Str(s.into_bytes())),
        Ok(Some(v)) => Some(Scalar::Other(v.to_string().into_bytes())),
        _ => None,
    }
}
/// The first `cols.len()` schema positions are matched: the name at index
/// `q` is the schema's name for position `q`.
pub open spec fn schema_prefix(cols: Seq<Vec<u8>>, schema: Seq<Seq<u8>>) -> bool {
    forall|q: int|
        #![trigger cols[q]]
        0 <= q < cols.len() ==> q < schema.len() && cols[q]@ == schema[q]
}

/// Captures the column list once, ordered by the backend-declared schema
/// positions. With distinct declared names — the usual case — the result is
/// exactly the schema's name list in schema order; a pathological result set
/// falls back to the raw name order. Either way no name repeats.
pub fn schema_columns(rs: &mut ResultSet) -> (cols: Vec<Vec<u8>>)
    ensures
        *final(rs) == *old(rs),
        forall|a: int, b: int| 0 <= a < b < cols@.len() ==> cols@[a]@ != cols@[b]@,
        all_distinct(rs_columns(*old(rs))) ==> cols@.map_values(|c: Vec<u8>| c@) == rs_columns(
            *old(rs),
        ),
{
    let pairs = result_columns(rs);
    let n = pairs.len();
    let mut cols: Vec<Vec<u8>> = Vec::new();
    let mut ok = true;
    let mut p: usize = 0;
    while p < n && ok
        invariant
            p <= n,
            n == pairs@.len(),
            *rs == *old(rs),
            forall|k: int| 0 <= k < pairs@.len() ==> (#[trigger] pairs@[k]).1 is Some,
            forall|k: int|
                0 <= k < pairs@.len() ==> ((#[trigger] pairs@[k]).1 matches Some(q) ==> q
                    < rs_columns(*old(rs)).len() && rs_columns(*old(rs))[q as int] == pairs@[k].0@),
            forall|k1: int, k2: int|
                0 <= k1 < k2 < pairs@.len() ==> (#[trigger] pairs@[k1]).0@ != (
                #[trigger] pairs@[k2]).0@,
            ok ==> cols@.len() == p,
            !ok ==> (p < n && (forall|k2: int|
                0 <= k2 < pairs@.len() ==> (#[trigger] pairs@[k2]).1 != Some(p))),
            schema_prefix(cols@, rs_columns(*old(rs))),
        decreases n - p + (if ok { 1int } else { 0int }),
    {
        // find the pair declared at schema position p
        let mut idx: usize = n;
        let mut k: usize = 0;
        while k < n
            invariant
                k <= n,
                n == pairs@.len(),
                idx <= n,
                idx == n ==> (forall|k2: int|
                    0 <= k2 < k ==> (#[trigger] pairs@[k2]).1 != Some(p)),
                idx < n ==> pairs@[idx as int].1 == Some(p),
            decreases n - k,
        {
            let hit = match pairs[k].1 {
                Some(q) => q == p,
                None => false,
            };
            if hit && idx == n {
                idx = k;
            }
            k = k + 1;
        }
        if idx < n {
            let name = copy_bytes(&pairs[idx].0);
            let ghost cols_pre = cols@;
            proof {
                assert(pairs@[idx as int].1 matches Some(q) && q == p);
                assert(rs_columns(*old(rs))[p as int] == pairs@[idx as int].0@);
            }
            cols.push(name);
            proof {
                assert(cols@ == cols_pre.push(name));
                assert forall|q: int|
                    #![trigger cols@[q]]
                    0 <= q < cols@.len() implies q < rs_columns(*old(rs)).len() && cols@[q]@
                    == rs_columns(*old(rs))[q] by {
                    if q < cols_pre.len() {
                        assert(cols@[q] == cols_pre[q]);
                        assert(cols_pre[q]@ == rs_columns(*old(rs))[q]);
                    } else {
                        assert(q == p as int);
                        assert(cols@[q]@ == pairs@[idx as int].0@);
                    }
                }
            }
            p = p + 1;
        } else {
            ok = false;
        }
    }
    if ok && distinct_names(&cols) {
        proof {
            if all_distinct(rs_columns(*old(rs))) {
                assert(cols@.len() == n && n == rs_columns(*old(rs)).len());
                assert forall|q: int| 0 <= q < cols@.len() implies cols@.map_values(
                    |c: Vec<u8>| c@,
                )[q] == rs_columns(*old(rs))[q] by {
                    assert(cols@[q]@ == rs_columns(*old(rs))[q]);
                }
                assert(cols@.map_values(|c: Vec<u8>| c@) =~= rs_columns(*old(rs)));
            }
        }
        return cols;
    }
    // a pathological result set: fall back to the raw name order, which the
    // column map keeps pairwise distinct
    proof {
        assert(!all_distinct(rs_columns(*old(rs)))) by {
            if all_distinct(rs_columns(*old(rs))) {
                if !ok {
                    assert(has_position(pairs@, p));
                } else {
                    assert forall|a: int, b: int|
                        0 <= a < b < cols@.len() implies (#[trigger] cols@[a])@ != (
                    #[trigger] cols@[b])@ by {
                        assert(cols@[a]@ == rs_columns(*old(rs))[a]);
                        assert(cols@[b]@ == rs_columns(*old(rs))[b]);
                    }
                }
            }
        }
    }
    let mut raw: Vec<Vec<u8>> = Vec::new();
    let mut k: usize = 0;
    while k < n
        invariant
            k <= n,
            n == pairs@.len(),
            *rs == *old(rs),
            raw@.len() == k,
            forall|q: int| 0 <= q < k ==> (#[trigger] raw@[q])@ == pairs@[q].0@,
            forall|k1: int, k2: int|
                0 <= k1 < k2 < pairs@.len() ==> (#[trigger] pairs@[k1]).0@ != (
                #[trigger] pairs@[k2]).0@,
            forall|a: int, b: int| 0 <= a < b < raw@.len() ==> raw@[a]@ != raw@[b]@,
        decreases n - k,
    {
        raw.push(copy_bytes(&pairs[k].0));
        k = k + 1;
    }
    raw
}

/// Materializes one successful query: captures the column list once, in the
/// backend-declared schema order, then walks the cursor in row order, looking
/// every column up in each row. A value the backend does not supply becomes
/// an explicit null, never a failure; zero rows give an empty sequence. One
/// produced row per cursor row, each with exactly one cell per captured
/// column, in the one captured order; cell `b` of row `a` is the cursor's
/// value for that row under column `b`.
pub fn materialize(rs: &mut ResultSet) -> (d: QueryData)
    ensures
        d.wf(),
        rs_columns(*final(rs)) == rs_columns(*old(rs)),
        rs_total_rows(*final(rs)) == rs_total_rows(*old(rs)),
        all_distinct(rs_columns(*old(rs))) ==> d.columns@.map_values(|c: Vec<u8>| c@)
            == rs_columns(*old(rs)),
        (-1 <= rs_cursor(*old(rs)) && rs_cursor(*old(rs)) < rs_total_rows(*old(rs))) ==> d.rows@.len()
            == rs_total_rows(*old(rs)) - 1 - rs_cursor(*old(rs)),
        forall|a: int, b: int|
            #![trigger d.rows@[a]@[b]]
            0 <= a < d.rows@.len() && 0 <= b < d.columns@.len() ==> d.rows@[a]@[b] == cell_or_null(
                rs_cell(*old(rs), rs_cursor(*old(rs)) + 1 + a, d.columns@[b]@),
            ),
{
    let ghost orig = *rs;
    let cols = schema_columns(rs);
    let n = result_row_count(rs);
    let ghost c0 = rs_cursor(orig);
    let ghost nn = rs_total_rows(orig) as int;
    let mut rows: Vec<Vec<Scalar>> = Vec::new();
    let mut i: usize = 0;
    let mut more = advance_row(rs);
    while more && i < n
        invariant
            i <= n,
            n == rs_total_rows(orig),
            nn == rs_total_rows(orig) as int,
            c0 == rs_cursor(orig),
            rs_columns(*rs) == rs_columns(orig),
            rs_total_rows(*rs) == rs_total_rows(orig),
            forall|r2: int, c2: Seq<u8>| rs_cell(*rs, r2, c2) == rs_cell(orig, r2, c2),
            forall|a: int, b: int| 0 <= a < b < cols@.len() ==> cols@[a]@ != cols@[b]@,
            more ==> rs_cursor(*rs) == c0 + 1 + i,
            (-1 <= c0 && c0 < nn) ==> (more ==> rs_cursor(*rs) <= nn - 1),
            !more ==> c0 + i == nn - 1,
            rows@.len() == i,
            forall|a: int| 0 <= a < i ==> (#[trigger] rows@[a])@.len() == cols@.len(),
            forall|a: int, b: int|
                #![trigger rows@[a]@[b]]
                0 <= a < i && 0 <= b < cols@.len() ==> rows@[a]@[b] == cell_or_null(
                    rs_cell(orig, c0 + 1 + a, cols@[b]@),
                ),
        decreases n - i,
    {
        let ghost cur = *rs;
        let mut row: Vec<Scalar> = Vec::new();
        let mut j: usize = 0;
        while j < cols.len()
            invariant
                j <= cols@.len(),
                row@.len() == j,
                *rs == cur,
                rs_cursor(cur) == c0 + 1 + i,
                forall|r2: int, c2: Seq<u8>| rs_cell(cur, r2, c2) == rs_cell(orig, r2, c2),
                forall|b: int|
                    #![trigger row@[b]]
                    0 <= b < j ==> row@[b] == cell_or_null(
                        rs_cell(orig, c0 + 1 + i, cols@[b]@),
                    ),
            decreases cols@.len() - j,
        {
            let cell = fetch_cell(rs, &cols[j]);
            let v = match cell {
                Option::Some(v) => v,
                Option::None => Scalar::Null,
            };
            row.push(v);
            j = j + 1;
        }
        rows.push(row);
        i = i + 1;
        more = advance_row(rs);
    }
    proof {
        if -1 <= c0 && c0 < nn {
            if more {
                assert(i == n);
                assert(rs_cursor(*rs) == c0 + 1 + n && rs_cursor(*rs) <= nn - 1);
                assert(false);
            }
            assert(i == nn - 1 - c0);
        }
    }
    QueryData { columns: cols, rows }
}

} // verus!

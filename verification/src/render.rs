//! Rendering of the aggregated response as JSON text, specified byte for byte.
//!
//! The response body is an object mapping each label to `{"data":[...]}` or
//! `{"err":"..."}`. Spec functions below define the exact byte sequence; the
//! emit functions produce it and are proved to match.

use vstd::prelude::*;
use crate::scalar::Scalar;
use crate::scalar::QueryData;
use crate::collect::Outcome;
use crate::collect::ResponseEntry;
use crate::collect::BatchResponse;
use crate::bytes::emit_bytes;

verus! {

pub const QUOTE: u8 = 34;
pub const COMMA: u8 = 44;
pub const COLON: u8 = 58;
pub const LBRACKET: u8 = 91;
pub const BACKSLASH: u8 = 92;
pub const RBRACKET: u8 = 93;
pub const LBRACE: u8 = 123;
pub const RBRACE: u8 = 125;
pub const LOWER_U: u8 = 117;
pub const DIGIT_ZERO: u8 = 48;

/// The lower-case hexadecimal digit for `n`, which must be below 16.
pub open spec fn hex_digit(n: u8) -> u8 {
    if n < 10 {
        (48 + n) as u8
    } else {
        (87 + n) as u8
    }
}

/// How one byte of a JSON string body is written: quote and backslash get a
/// backslash escape, control bytes become `\u00XX`, all others pass through.
pub open spec fn escape_byte(b: u8) -> Seq<u8> {
    if b == QUOTE {
        seq![BACKSLASH, QUOTE]
    } else if b == BACKSLASH {
        seq![BACKSLASH, BACKSLASH]
    } else if b < 32 {
        seq![BACKSLASH, LOWER_U, DIGIT_ZERO, DIGIT_ZERO, hex_digit((b / 16) as u8), hex_digit((b % 16) as u8)]
    } else {
        seq![b]
    }
}

/// The escaped form of the first `n` bytes of `s`.
pub open spec fn escaped_prefix(s: Seq<u8>, n: nat) -> Seq<u8>
    decreases n,
{
    if n == 0 {
        Seq::empty()
    } else {
        escaped_prefix(s, (n - 1) as nat) + escape_byte(s[n - 1])
    }
}

/// The escaped form of a whole byte string.
pub open spec fn escaped(s: Seq<u8>) -> Seq<u8> {
    escaped_prefix(s, s.len())
}

/// A JSON string literal: the escaped bytes between double quotes.
pub open spec fn quoted(s: Seq<u8>) -> Seq<u8> {
    seq![QUOTE] + escaped(s) + seq![QUOTE]
}

/// The JSON text of one cell value.
pub open spec fn scalar_json(v: Scalar) -> Seq<u8> {
    match v {
        // the four bytes of `null`
        Scalar::Null => seq![110u8, 117u8, 108u8, 108u8],
        // the bytes of `true` or `false`
        Scalar::Bool(b) => if b {
            seq![116u8, 114u8, 117u8, 101u8]
        } else {
            seq![102u8, 97u8, 108u8, 115u8, 101u8]
        },
        Scalar::Num(t) => t@,
        Scalar::Str(t) => quoted(t@),
        Scalar::Other(t) => t@,
    }
}

/// One `"column":value` member of a row object.
pub open spec fn cell_json(col: Vec<u8>, v: Scalar) -> Seq<u8> {
    quoted(col@) + seq![COLON] + scalar_json(v)
}

/// The first `n` members of a row object, separated by commas.
pub open spec fn cells_json(cols: Seq<Vec<u8>>, row: Seq<Scalar>, n: nat) -> Seq<u8>
    decreases n,
{
    if n == 0 {
        Seq::empty()
    } else if n == 1 {
        cell_json(cols[0], row[0])
    } else {
        cells_json(cols, row, (n - 1) as nat) + seq![COMMA] + cell_json(cols[n - 1], row[n - 1])
    }
}

/// One row as a JSON object, its members in column order.
pub open spec fn row_json(cols: Seq<Vec<u8>>, row: Seq<Scalar>) -> Seq<u8> {
    seq![LBRACE] + cells_json(cols, row, cols.len()) + seq![RBRACE]
}

/// The first `n` rows, separated by commas, every one in the same column order.
pub open spec fn rows_json(cols: Seq<Vec<u8>>, rows: Seq<Vec<Scalar>>, n: nat) -> Seq<u8>
    decreases n,
{
    if n == 0 {
        Seq::empty()
    } else if n == 1 {
        row_json(cols, rows[0]@)
    } else {
        rows_json(cols, rows, (n - 1) as nat) + seq![COMMA] + row_json(cols, rows[n - 1]@)
    }
}

/// All rows of one query as a JSON array, in cursor order.
pub open spec fn data_json(d: QueryData) -> Seq<u8> {
    seq![LBRACKET] + rows_json(d.columns@, d.rows@, d.rows@.len()) + seq![RBRACKET]
}

/// One outcome: `{"data":[...]}` on success, `{"err":"..."}` on failure.
pub open spec fn outcome_json(o: Outcome) -> Seq<u8> {
    match o {
        // the leading bytes spell `{"data":`
        Outcome::Rows(d) => seq![LBRACE, QUOTE, 100u8, 97u8, 116u8, 97u8, QUOTE, COLON] + data_json(d)
            + seq![RBRACE],
        // the leading bytes spell `{"err":`
        Outcome::Failed(m) => seq![LBRACE, QUOTE, 101u8, 114u8, 114u8, QUOTE, COLON] + quoted(m@)
            + seq![RBRACE],
    }
}

/// One `"label":outcome` member of the response object.
pub open spec fn entry_json(e: ResponseEntry) -> Seq<u8> {
    quoted(e.label@) + seq![COLON] + outcome_json(e.outcome)
}

/// The first `n` response members, separated by commas.
pub open spec fn entries_json(es: Seq<ResponseEntry>, n: nat) -> Seq<u8>
    decreases n,
{
    if n == 0 {
        Seq::empty()
    } else if n == 1 {
        entry_json(es[0])
    } else {
        entries_json(es, (n - 1) as nat) + seq![COMMA] + entry_json(es[n - 1])
    }
}

/// The whole response body: an object with one member per label, in order.
pub open spec fn response_json(es: Seq<ResponseEntry>) -> Seq<u8> {
    seq![LBRACE] + entries_json(es, es.len()) + seq![RBRACE]
}

/// An empty batch renders as the empty object `{}`.
pub proof fn lemma_empty_response(es: Seq<ResponseEntry>)
    requires
        es.len() == 0,
    ensures
        response_json(es) == seq![LBRACE, RBRACE],
{
    assert(response_json(es) =~= seq![LBRACE, RBRACE]);
}

/// The lower-case hexadecimal digit for `n`, which must be below 16.
fn hex_digit_byte(n: u8) -> (r: u8)
    requires
        n < 16,
    ensures
        r == hex_digit(n),
{
    if n < 10 {
        48 + n
    } else {
        87 + n
    }
}

/// Returns `out` with the escaped form of `s` appended.
pub fn emit_escaped(mut out: Vec<u8>, s: &Vec<u8>) -> (r: Vec<u8>)
    ensures
        r@ == out@ + escaped(s@),
{
    let ghost out0 = out@;
    let mut i: usize = 0;
    while i < s.len()
        invariant
            i <= s@.len(),
            out@ == out0 + escaped_prefix(s@, i as nat),
        decreases s@.len() - i,
    {
        let ghost before = out@;
        let b = s[i];
        if b == QUOTE {
            out.push(BACKSLASH);
            out.push(QUOTE);
        } else if b == BACKSLASH {
            out.push(BACKSLASH);
            out.push(BACKSLASH);
        } else if b < 32 {
            out.push(BACKSLASH);
            out.push(LOWER_U);
            out.push(DIGIT_ZERO);
            out.push(DIGIT_ZERO);
            out.push(hex_digit_byte(b / 16));
            out.push(hex_digit_byte(b % 16));
        } else {
            out.push(b);
        }
        proof {
            assert(out@ =~= before + escape_byte(s@[i as int]));
            assert(escaped_prefix(s@, (i + 1) as nat) == escaped_prefix(s@, i as nat) + escape_byte(
                s@[i as int],
            ));
            assert(out@ =~= out0 + escaped_prefix(s@, (i + 1) as nat));
        }
        i = i + 1;
    }
    out
}

/// Returns `out` with the JSON string literal for `s` appended.
pub fn emit_quoted(mut out: Vec<u8>, s: &Vec<u8>) -> (r: Vec<u8>)
    ensures
        r@ == out@ + quoted(s@),
{
    let ghost out0 = out@;
    out.push(QUOTE);
    out = emit_escaped(out, s);
    out.push(QUOTE);
    proof {
        assert(out@ =~= out0 + quoted(s@));
    }
    out
}

/// Returns `out` with the JSON text of one cell value appended.
pub fn emit_scalar(mut out: Vec<u8>, v: &Scalar) -> (r: Vec<u8>)
    ensures
        r@ == out@ + scalar_json(*v),
{
    let ghost out0 = out@;
    match v {
        Scalar::Null => {
            out.push(110);
            out.push(117);
            out.push(108);
            out.push(108);
            proof {
                assert(out@ =~= out0 + scalar_json(*v));
            }
        },
        Scalar::Bool(b) => {
            if *b {
                out.push(116);
                out.push(114);
                out.push(117);
                out.push(101);
            } else {
                out.push(102);
                out.push(97);
                out.push(108);
                out.push(115);
                out.push(101);
            }
            proof {
                assert(out@ =~= out0 + scalar_json(*v));
            }
        },
        Scalar::Num(t) => {
            out = emit_bytes(out, t);
        },
        Scalar::Str(t) => {
            out = emit_quoted(out, t);
        },
        Scalar::Other(t) => {
            out = emit_bytes(out, t);
        },
    }
    out
}

/// Returns `out` with one row object appended, members in column order.
pub fn emit_row(mut out: Vec<u8>, cols: &Vec<Vec<u8>>, row: &Vec<Scalar>) -> (r: Vec<u8>)
    requires
        row@.len() == cols@.len(),
    ensures
        r@ == out@ + row_json(cols@, row@),
{
    let ghost out0 = out@;
    out.push(LBRACE);
    let mut j: usize = 0;
    while j < cols.len()
        invariant
            j <= cols@.len(),
            row@.len() == cols@.len(),
            out@ == out0 + seq![LBRACE] + cells_json(cols@, row@, j as nat),
        decreases cols@.len() - j,
    {
        let ghost before = out@;
        if j > 0 {
            out.push(COMMA);
        }
        out = emit_quoted(out, &cols[j]);
        out.push(COLON);
        out = emit_scalar(out, &row[j]);
        proof {
            if j == 0 {
                assert(cells_json(cols@, row@, 1) == cell_json(cols@[0], row@[0]));
                assert(out@ =~= out0 + seq![LBRACE] + cells_json(cols@, row@, (j + 1) as nat));
            } else {
                assert(cells_json(cols@, row@, (j + 1) as nat) == cells_json(cols@, row@, j as nat)
                    + seq![COMMA] + cell_json(cols@[j as int], row@[j as int]));
                assert(out@ =~= out0 + seq![LBRACE] + cells_json(cols@, row@, (j + 1) as nat));
            }
        }
        j = j + 1;
    }
    out.push(RBRACE);
    proof {
        assert(out@ =~= out0 + row_json(cols@, row@));
    }
    out
}

/// Returns `out` with the data array of one query appended: all rows in
/// cursor order, every row in the one captured column order.
pub fn emit_data(mut out: Vec<u8>, d: &QueryData) -> (r: Vec<u8>)
    requires
        d.wf(),
    ensures
        r@ == out@ + data_json(*d),
{
    let ghost out0 = out@;
    out.push(LBRACKET);
    let mut i: usize = 0;
    while i < d.rows.len()
        invariant
            i <= d.rows@.len(),
            d.wf(),
            out@ == out0 + seq![LBRACKET] + rows_json(d.columns@, d.rows@, i as nat),
        decreases d.rows@.len() - i,
    {
        if i > 0 {
            out.push(COMMA);
        }
        out = emit_row(out, &d.columns, &d.rows[i]);
        proof {
            if i == 0 {
                assert(rows_json(d.columns@, d.rows@, 1) == row_json(d.columns@, d.rows@[0]@));
            } else {
                assert(rows_json(d.columns@, d.rows@, (i + 1) as nat) == rows_json(
                    d.columns@,
                    d.rows@,
                    i as nat,
                ) + seq![COMMA] + row_json(d.columns@, d.rows@[i as int]@));
            }
            assert(out@ =~= out0 + seq![LBRACKET] + rows_json(d.columns@, d.rows@, (i + 1) as nat));
        }
        i = i + 1;
    }
    out.push(RBRACKET);
    proof {
        assert(out@ =~= out0 + data_json(*d));
    }
    out
}

/// Returns `out` with one outcome appended: `{"data":[...]}` or `{"err":"..."}`.
pub fn emit_outcome(mut out: Vec<u8>, o: &Outcome) -> (r: Vec<u8>)
    requires
        o.wf(),
    ensures
        r@ == out@ + outcome_json(*o),
{
    let ghost out0 = out@;
    match o {
        Outcome::Rows(d) => {
            out.push(LBRACE);
            out.push(QUOTE);
            out.push(100);
            out.push(97);
            out.push(116);
            out.push(97);
            out.push(QUOTE);
            out.push(COLON);
            out = emit_data(out, d);
            out.push(RBRACE);
            proof {
                assert(out@ =~= out0 + outcome_json(*o));
            }
        },
        Outcome::Failed(m) => {
            out.push(LBRACE);
            out.push(QUOTE);
            out.push(101);
            out.push(114);
            out.push(114);
            out.push(QUOTE);
            out.push(COLON);
            out = emit_quoted(out, m);
            out.push(RBRACE);
            proof {
                assert(out@ =~= out0 + outcome_json(*o));
            }
        },
    }
    out
}

/// Renders the whole response body: one member per label, in request order.
pub fn render_response(resp: &BatchResponse) -> (out: Vec<u8>)
    requires
        resp.wf(),
    ensures
        out@ == response_json(resp.entries@),
{
    let mut out: Vec<u8> = Vec::new();
    out.push(LBRACE);
    let mut i: usize = 0;
    while i < resp.entries.len()
        invariant
            i <= resp.entries@.len(),
            resp.wf(),
            out@ == seq![LBRACE] + entries_json(resp.entries@, i as nat),
        decreases resp.entries@.len() - i,
    {
        if i > 0 {
            out.push(COMMA);
        }
        out = emit_quoted(out, &resp.entries[i].label);
        out.push(COLON);
        out = emit_outcome(out, &resp.entries[i].outcome);
        proof {
            assert(entry_json(resp.entries@[i as int]) == quoted(resp.entries@[i as int].label@)
                + seq![COLON] + outcome_json(resp.entries@[i as int].outcome));
            if i == 0 {
                assert(entries_json(resp.entries@, 1) == entry_json(resp.entries@[0]));
            } else {
                assert(entries_json(resp.entries@, (i + 1) as nat) == entries_json(
                    resp.entries@,
                    i as nat,
                ) + seq![COMMA] + entry_json(resp.entries@[i as int]));
            }
            assert(out@ =~= seq![LBRACE] + entries_json(resp.entries@, (i + 1) as nat));
        }
        i = i + 1;
    }
    out.push(RBRACE);
    proof {
        assert(out@ =~= response_json(resp.entries@));
    }
    out
}

} // verus!

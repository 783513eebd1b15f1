use batch_query::backend::materialize;
use batch_query::scalar::Scalar;
use gcp_bigquery_client::model::query_response::QueryResponse;
use gcp_bigquery_client::model::query_response::ResultSet;
use gcp_bigquery_client::model::table_cell::TableCell;
use gcp_bigquery_client::model::table_field_schema::TableFieldSchema;
use gcp_bigquery_client::model::table_row::TableRow;
use gcp_bigquery_client::model::table_schema::TableSchema;

fn b(s: &str) -> Vec<u8> {
    s.as_bytes().to_vec()
}

fn result_set(fields: Vec<TableFieldSchema>, rows: Vec<TableRow>) -> ResultSet {
    let mut resp = QueryResponse::default();
    resp.job_complete = Some(true);
    resp.schema = Some(TableSchema::new(fields));
    resp.rows = Some(rows);
    ResultSet::new_from_query_response(resp)
}

fn row(cells: Vec<Option<serde_json::Value>>) -> TableRow {
    TableRow { columns: Some(cells.into_iter().map(|value| TableCell { value }).collect()) }
}

#[test]
fn materialize_single_number_cell() {
    let mut rs = result_set(
        vec![TableFieldSchema::integer("a")],
        vec![row(vec![Some(serde_json::Value::Number(serde_json::Number::from(1)))])],
    );
    let d = materialize(&mut rs);
    assert_eq!(d.columns, vec![b("a")]);
    assert_eq!(d.rows, vec![vec![Scalar::Num(b("1"))]]);
}

#[test]
fn materialize_string_and_bool_cells() {
    let mut rs = result_set(
        vec![TableFieldSchema::string("s"), TableFieldSchema::bool("k")],
        vec![row(vec![
            Some(serde_json::Value::String("str".to_string())),
            Some(serde_json::Value::Bool(true)),
        ])],
    );
    let d = materialize(&mut rs);
    assert_eq!(d.columns, vec![b("s"), b("k")]);
    assert_eq!(d.rows, vec![vec![Scalar::Str(b("str")), Scalar::Bool(true)]]);
}

#[test]
fn materialize_columns_in_schema_order() {
    let mut rs = result_set(
        vec![
            TableFieldSchema::string("zz"),
            TableFieldSchema::string("aa"),
            TableFieldSchema::string("mm"),
        ],
        vec![row(vec![
            Some(serde_json::Value::String("1".to_string())),
            Some(serde_json::Value::String("2".to_string())),
            Some(serde_json::Value::String("3".to_string())),
        ])],
    );
    let d = materialize(&mut rs);
    assert_eq!(d.columns, vec![b("zz"), b("aa"), b("mm")]);
    assert_eq!(
        d.rows,
        vec![vec![Scalar::Str(b("1")), Scalar::Str(b("2")), Scalar::Str(b("3"))]],
    );
}

#[test]
fn materialize_nested_value_keeps_serialized_form() {
    let nested = serde_json::Value::Array(vec![
        serde_json::Value::Number(serde_json::Number::from(1)),
        serde_json::Value::Number(serde_json::Number::from(2)),
    ]);
    let mut rs = result_set(vec![TableFieldSchema::record("r", vec![])], vec![row(vec![Some(
        nested,
    )])]);
    let d = materialize(&mut rs);
    assert_eq!(d.rows, vec![vec![Scalar::Other(b("[1,2]"))]]);
}

#[test]
fn materialize_missing_value_becomes_null() {
    let mut rs = result_set(vec![TableFieldSchema::string("s")], vec![row(vec![None])]);
    let d = materialize(&mut rs);
    assert_eq!(d.rows, vec![vec![Scalar::Null]]);
}

#[test]
fn materialize_zero_rows_is_empty_not_error() {
    let mut rs = result_set(vec![TableFieldSchema::string("s")], vec![]);
    let d = materialize(&mut rs);
    assert_eq!(d.columns, vec![b("s")]);
    assert_eq!(d.rows.len(), 0);
}

#[test]
fn materialize_rows_are_uniform() {
    let mut rs = result_set(
        vec![TableFieldSchema::integer("a"), TableFieldSchema::integer("b")],
        vec![
            row(vec![
                Some(serde_json::Value::Number(serde_json::Number::from(1))),
                Some(serde_json::Value::Number(serde_json::Number::from(2))),
            ]),
            row(vec![Some(serde_json::Value::Number(serde_json::Number::from(3))), None]),
        ],
    );
    let d = materialize(&mut rs);
    assert_eq!(d.columns, vec![b("a"), b("b")]);
    assert_eq!(d.rows.len(), 2);
    for r in d.rows.iter() {
        assert_eq!(r.len(), d.columns.len());
    }
    assert_eq!(d.rows[0], vec![Scalar::Num(b("1")), Scalar::Num(b("2"))]);
    assert_eq!(d.rows[1], vec![Scalar::Num(b("3")), Scalar::Null]);
}

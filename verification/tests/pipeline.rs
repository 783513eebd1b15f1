use batch_query::collect::Collector;
use batch_query::collect::Outcome;
use batch_query::render::render_response;
use batch_query::request::parse_batch;
use batch_query::backend::materialize;
use gcp_bigquery_client::model::query_response::QueryResponse;
use gcp_bigquery_client::model::query_response::ResultSet;
use gcp_bigquery_client::model::table_cell::TableCell;
use gcp_bigquery_client::model::table_field_schema::TableFieldSchema;
use gcp_bigquery_client::model::table_row::TableRow;
use gcp_bigquery_client::model::table_schema::TableSchema;

fn b(s: &str) -> Vec<u8> {
    s.as_bytes().to_vec()
}

fn s(v: &[u8]) -> String {
    String::from_utf8(v.to_vec()).unwrap()
}

/// A one-column, one-cell result set, standing in for the backend.
fn mock_result(col: &str, n: i64) -> ResultSet {
    let mut resp = QueryResponse::default();
    resp.job_complete = Some(true);
    resp.schema = Some(TableSchema::new(vec![TableFieldSchema::integer(col)]));
    resp.rows = Some(vec![TableRow {
        columns: Some(vec![TableCell {
            value: Some(serde_json::Value::Number(serde_json::Number::from(n))),
        }]),
    }]);
    ResultSet::new_from_query_response(resp)
}

#[test]
fn mixed_success_and_failure_scenario() {
    let body = b(r#"{"q1":"SELECT 1 as a","q2":"SELECT * FROM missing"}"#);
    let req = parse_batch(&body).unwrap();
    let mut c = Collector::for_request(&req);

    // mock backend: q1 succeeds with one row, q2 fails; q2 finishes first
    let mut completions: Vec<(Vec<u8>, Outcome)> = Vec::new();
    for entry in req.entries.iter() {
        if entry.sql == b("SELECT 1 as a") {
            let mut rs = mock_result("a", 1);
            completions.insert(0, (entry.label.clone(), Outcome::Rows(materialize(&mut rs))));
        } else {
            completions.insert(0, (entry.label.clone(), Outcome::Failed(b("not found"))));
        }
    }
    for (label, outcome) in completions {
        assert!(c.record(&label, outcome));
    }
    assert!(c.complete());
    let resp = c.finish();
    assert_eq!(
        s(&render_response(&resp)),
        r#"{"q1":{"data":[{"a":1}]},"q2":{"err":"not found"}}"#,
    );
}

#[test]
fn empty_batch_renders_empty_and_calls_nothing() {
    let req = parse_batch(&b("{}")).unwrap();
    let mut backend_calls = 0;
    let c = Collector::for_request(&req);
    for _entry in req.entries.iter() {
        backend_calls += 1;
    }
    assert_eq!(backend_calls, 0);
    assert!(c.complete());
    assert_eq!(render_response(&c.finish()), b("{}"));
}

#[test]
fn response_label_set_matches_request() {
    let body = b(r#"{"x":"SELECT 1","y":"SELECT 2","z":"SELECT 3"}"#);
    let req = parse_batch(&body).unwrap();
    let labels: Vec<Vec<u8>> = req.entries.iter().map(|e| e.label.clone()).collect();
    let mut c = Collector::for_request(&req);
    for l in labels.iter().rev() {
        assert!(c.record(l, Outcome::Failed(b("e"))));
    }
    let resp = c.finish();
    let got: Vec<Vec<u8>> = resp.entries.iter().map(|e| e.label.clone()).collect();
    assert_eq!(got, labels);
}

#[test]
fn all_success_has_no_err_member() {
    let body = b(r#"{"p":"SELECT 1 as a","q":"SELECT 2 as a"}"#);
    let req = parse_batch(&body).unwrap();
    let mut c = Collector::for_request(&req);
    for entry in req.entries.iter() {
        let mut rs = mock_result("a", 5);
        assert!(c.record(&entry.label, Outcome::Rows(materialize(&mut rs))));
    }
    let out = s(&render_response(&c.finish()));
    assert!(!out.contains("err"));
    assert_eq!(out, r#"{"p":{"data":[{"a":5}]},"q":{"data":[{"a":5}]}}"#);
}

use batch_query::collect::BatchResponse;
use batch_query::collect::Outcome;
use batch_query::collect::ResponseEntry;
use batch_query::render::render_response;
use batch_query::scalar::QueryData;
use batch_query::scalar::Scalar;

fn b(s: &str) -> Vec<u8> {
    s.as_bytes().to_vec()
}

fn s(v: &[u8]) -> String {
    String::from_utf8(v.to_vec()).unwrap()
}

#[test]
fn render_empty_object() {
    let resp = BatchResponse { entries: vec![] };
    assert_eq!(render_response(&resp), b("{}"));
}

#[test]
fn render_error_member() {
    let resp = BatchResponse {
        entries: vec![ResponseEntry { label: b("q2"), outcome: Outcome::Failed(b("not found")) }],
    };
    assert_eq!(s(&render_response(&resp)), r#"{"q2":{"err":"not found"}}"#);
}

#[test]
fn render_scalar_variants() {
    let data = QueryData {
        columns: vec![b("n"), b("t"), b("f"), b("s"), b("x"), b("o")],
        rows: vec![vec![
            Scalar::Num(b("9999.9")),
            Scalar::Bool(true),
            Scalar::Bool(false),
            Scalar::Str(b("str")),
            Scalar::Null,
            Scalar::Other(b("[1,2]")),
        ]],
    };
    let resp = BatchResponse {
        entries: vec![ResponseEntry { label: b("q"), outcome: Outcome::Rows(data) }],
    };
    assert_eq!(
        s(&render_response(&resp)),
        r#"{"q":{"data":[{"n":9999.9,"t":true,"f":false,"s":"str","x":null,"o":[1,2]}]}}"#,
    );
}

#[test]
fn render_zero_rows_gives_empty_array() {
    let data = QueryData { columns: vec![b("c")], rows: vec![] };
    let resp = BatchResponse {
        entries: vec![ResponseEntry { label: b("q"), outcome: Outcome::Rows(data) }],
    };
    assert_eq!(s(&render_response(&resp)), r#"{"q":{"data":[]}}"#);
}

#[test]
fn render_rows_share_one_column_order() {
    let data = QueryData {
        columns: vec![b("a"), b("b")],
        rows: vec![
            vec![Scalar::Num(b("1")), Scalar::Num(b("2"))],
            vec![Scalar::Num(b("3")), Scalar::Num(b("4"))],
        ],
    };
    let resp = BatchResponse {
        entries: vec![ResponseEntry { label: b("q"), outcome: Outcome::Rows(data) }],
    };
    assert_eq!(
        s(&render_response(&resp)),
        r#"{"q":{"data":[{"a":1,"b":2},{"a":3,"b":4}]}}"#,
    );
}

#[test]
fn render_escapes_quotes_backslashes_and_controls() {
    let resp = BatchResponse {
        entries: vec![ResponseEntry {
            label: b("he\"llo\\"),
            outcome: Outcome::Failed(b("line\nbreak")),
        }],
    };
    assert_eq!(
        s(&render_response(&resp)),
        "{\"he\\\"llo\\\\\":{\"err\":\"line\\u000abreak\"}}",
    );
}

use batch_query::request::parse_batch;
use batch_query::request::parse_error_message;
use batch_query::request::ParseError;

fn b(s: &str) -> Vec<u8> {
    s.as_bytes().to_vec()
}

#[test]
fn parse_empty_batch() {
    let req = parse_batch(&b("{}")).unwrap();
    assert_eq!(req.entries.len(), 0);
}

#[test]
fn parse_two_queries_in_order() {
    let req = parse_batch(&b(r#"{"q1":"SELECT 1 as a","q2":"SELECT 2"}"#)).unwrap();
    assert_eq!(req.entries.len(), 2);
    assert_eq!(req.entries[0].label, b("q1"));
    assert_eq!(req.entries[0].sql, b("SELECT 1 as a"));
    assert_eq!(req.entries[1].label, b("q2"));
    assert_eq!(req.entries[1].sql, b("SELECT 2"));
}

#[test]
fn parse_labels_kept_verbatim() {
    let req = parse_batch(&b("{\"Q\\u00e9 One\":\"SELECT 1\"}")).unwrap();
    assert_eq!(req.entries[0].label, "Q\u{e9} One".as_bytes().to_vec());
}

#[test]
fn parse_malformed_body() {
    assert!(matches!(parse_batch(&b("not json")), Err(ParseError::MalformedBody)));
}

#[test]
fn parse_top_level_not_object() {
    assert!(matches!(parse_batch(&b("[1,2]")), Err(ParseError::InvalidBatchShape)));
    assert!(matches!(parse_batch(&b("\"x\"")), Err(ParseError::InvalidBatchShape)));
}

#[test]
fn parse_non_string_value_rejects_batch() {
    match parse_batch(&b(r#"{"q1": 123}"#)) {
        Err(ParseError::InvalidQueryValue(l)) => assert_eq!(l, b("q1")),
        _ => panic!("a non-string value must reject the whole batch"),
    }
}

#[test]
fn parse_non_string_value_rejects_despite_valid_entries() {
    match parse_batch(&b(r#"{"a":"SELECT 1","b":2,"c":"SELECT 3"}"#)) {
        Err(ParseError::InvalidQueryValue(l)) => assert_eq!(l, b("b")),
        _ => panic!("one bad value must reject the whole batch"),
    }
}

#[test]
fn parse_empty_sql_rejected() {
    match parse_batch(&b(r#"{"q1":""}"#)) {
        Err(ParseError::InvalidQueryValue(l)) => assert_eq!(l, b("q1")),
        _ => panic!("an empty query string must be rejected"),
    }
}

#[test]
fn rejection_messages() {
    assert_eq!(
        parse_error_message(&ParseError::MalformedBody),
        b("request body is not well-formed"),
    );
    assert_eq!(parse_error_message(&ParseError::InvalidBatchShape), b("not a valid json object"));
    assert_eq!(
        parse_error_message(&ParseError::InvalidQueryValue(b("q1"))),
        b("query q1 must be a valid sql"),
    );
}

#[test]
fn non_string_value_dispatches_nothing() {
    let mut backend_calls = 0;
    match parse_batch(&b(r#"{"ok":"SELECT 1","bad":7}"#)) {
        Ok(req) => {
            for _entry in req.entries.iter() {
                backend_calls += 1;
            }
        },
        Err(_) => {},
    }
    assert_eq!(backend_calls, 0);
}

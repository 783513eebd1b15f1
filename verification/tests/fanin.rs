use batch_query::collect::Collector;
use batch_query::collect::Outcome;
use batch_query::render::render_response;
use batch_query::scalar::QueryData;
use batch_query::scalar::Scalar;

fn b(s: &str) -> Vec<u8> {
    s.as_bytes().to_vec()
}

fn one_cell_data(col: &str, v: Scalar) -> QueryData {
    QueryData { columns: vec![b(col)], rows: vec![vec![v]] }
}

#[test]
fn out_of_order_completion_keeps_labels() {
    let mut c = Collector::new(vec![b("q1"), b("q2")]);
    // the second-submitted query finishes first
    assert!(c.record(&b("q2"), Outcome::Failed(b("late"))));
    assert!(c.record(&b("q1"), Outcome::Rows(one_cell_data("a", Scalar::Num(b("1"))))));
    assert!(c.complete());
    let resp = c.finish();
    assert_eq!(resp.entries.len(), 2);
    assert_eq!(resp.entries[0].label, b("q1"));
    assert!(matches!(resp.entries[0].outcome, Outcome::Rows(_)));
    assert_eq!(resp.entries[1].label, b("q2"));
    assert_eq!(resp.entries[1].outcome, Outcome::Failed(b("late")));
}

#[test]
fn record_unknown_label_is_rejected() {
    let mut c = Collector::new(vec![b("q1")]);
    assert!(!c.record(&b("q9"), Outcome::Failed(b("x"))));
    assert!(!c.complete());
}

#[test]
fn record_twice_keeps_first_outcome() {
    let mut c = Collector::new(vec![b("q1")]);
    assert!(c.record(&b("q1"), Outcome::Failed(b("first"))));
    assert!(!c.record(&b("q1"), Outcome::Failed(b("second"))));
    let resp = c.finish();
    assert_eq!(resp.entries[0].outcome, Outcome::Failed(b("first")));
}

#[test]
fn empty_batch_completes_immediately() {
    let c = Collector::new(vec![]);
    assert!(c.complete());
    let resp = c.finish();
    assert_eq!(resp.entries.len(), 0);
    assert_eq!(render_response(&resp), b("{}"));
}

#[test]
fn complete_only_after_every_slot() {
    let mut c = Collector::new(vec![b("q1"), b("q2")]);
    assert!(!c.complete());
    assert!(c.record(&b("q1"), Outcome::Failed(b("e"))));
    assert!(!c.complete());
    assert!(c.record(&b("q2"), Outcome::Failed(b("e"))));
    assert!(c.complete());
}

#[test]
fn failure_does_not_corrupt_sibling_data() {
    let mut c = Collector::new(vec![b("good"), b("bad")]);
    let data = one_cell_data("a", Scalar::Str(b("kept")));
    assert!(c.record(&b("good"), Outcome::Rows(data)));
    assert!(c.record(&b("bad"), Outcome::Failed(b("boom"))));
    let resp = c.finish();
    assert_eq!(
        resp.entries[0].outcome,
        Outcome::Rows(one_cell_data("a", Scalar::Str(b("kept")))),
    );
    assert_eq!(resp.entries[1].outcome, Outcome::Failed(b("boom")));
}

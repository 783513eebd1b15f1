//! Decoding and validation of the inbound batch payload: a flat JSON object
//! mapping labels to SQL text. Validation is all-or-nothing: a single bad
//! entry rejects the whole batch, before anything is dispatched.

use vstd::prelude::*;
use crate::bytes::all_distinct;
use crate::bytes::copy_bytes;
use crate::bytes::emit_bytes;

verus! {

/// What the decoder saw in one entry's value: a JSON string, or anything else.
pub enum DecodedValue {
    Text(Seq<u8>),
    NonText,
}

/// What the decoder saw in the whole body.
pub enum DecodedBody {
    /// The bytes are not a well-formed payload.
    Undecodable,
    /// A well-formed payload whose top level is not an object.
    NotObject,
    /// An object: its entries in iteration order, keys exactly once each.
    Object(Seq<(Seq<u8>, DecodedValue)>),
}

/// The decoded shape of a body. JSON decoding is a fixed function of the
/// bytes, far too large to write out; contracts go through this name.
pub uninterp spec fn decoded_batch(body: Seq<u8>) -> DecodedBody;

/// An entry's value is acceptable: a non-empty string.
pub open spec fn entry_ok(v: DecodedValue) -> bool {
    v matches DecodedValue::Text(t) && t.len() > 0
}

/// The entries of a decoded object body; empty for the other shapes.
pub open spec fn body_entries(d: DecodedBody) -> Seq<(Seq<u8>, DecodedValue)> {
    match d {
        DecodedBody::Object(es) => es,
        _ => Seq::empty(),
    }
}

/// The body is an object and every entry's value is a non-empty string.
pub open spec fn all_entries_ok(d: DecodedBody) -> bool {
    &&& d is Object
    &&& forall|i: int|
        0 <= i < body_entries(d).len() ==> entry_ok((#[trigger] body_entries(d)[i]).1)
}

/// The text of an acceptable entry's value.
pub open spec fn text_of(v: DecodedValue) -> Seq<u8> {
    match v {
        DecodedValue::Text(t) => t,
        DecodedValue::NonText => Seq::empty(),
    }
}

/// Exec mirror of `DecodedValue`.
pub enum RawValue {
    Text(Vec<u8>),
    NonText,
}

impl View for RawValue {
    type V = DecodedValue;

    open spec fn view(&self) -> DecodedValue {
        match self {
            RawValue::Text(t) => DecodedValue::Text(t@),
            RawValue::NonText => DecodedValue::NonText,
        }
    }
}

/// One decoded entry: its label and its value.
pub struct RawEntry {
    pub label: Vec<u8>,
    pub value: RawValue,
}

impl View for RawEntry {
    type V = (Seq<u8>, DecodedValue);

    open spec fn view(&self) -> (Seq<u8>, DecodedValue) {
        (self.label@, self.value@)
    }
}

/// Exec mirror of `DecodedBody`.
pub enum RawBody {
    Undecodable,
    NotObject,
    Object(Vec<RawEntry>),
}

impl View for RawBody {
    type V = DecodedBody;

    open spec fn view(&self) -> DecodedBody {
        match self {
            RawBody::Undecodable => DecodedBody::Undecodable,
            RawBody::NotObject => DecodedBody::NotObject,
            RawBody::Object(es) => DecodedBody::Object(
                es@.map_values(|e: RawEntry| (e.label@, e.value@)),
            ),
        }
    }
}

/// Why a batch was rejected as a whole. No query is dispatched in any of
/// these cases.
#[derive(Debug, PartialEq, Eq)]
pub enum ParseError {
    /// The body does not decode.
    MalformedBody,
    /// The body decodes, but its top level is not an object.
    InvalidBatchShape,
    /// This label's value is not a non-empty string.
    InvalidQueryValue(Vec<u8>),
}

/// One validated entry: a label and its SQL text.
pub struct BatchEntry {
    pub label: Vec<u8>,
    pub sql: Vec<u8>,
}

/// A validated batch: labels unique, every SQL text non-empty, entry order
/// as decoded.
pub struct BatchRequest {
    pub entries: Vec<BatchEntry>,
}

impl View for BatchRequest {
    type V = Seq<(Seq<u8>, Seq<u8>)>;

    open spec fn view(&self) -> Seq<(Seq<u8>, Seq<u8>)> {
        self.entries@.map_values(|e: BatchEntry| (e.label@, e.sql@))
    }
}

impl BatchRequest {
    /// The labels, in entry order.
    pub open spec fn label_seq(self) -> Seq<Seq<u8>> {
        self.entries@.map_values(|e: BatchEntry| e.label@)
    }

    /// Labels are unique and every SQL text is non-empty.
    pub open spec fn wf(self) -> bool {
        &&& all_distinct(self.label_seq())
        &&& forall|i: int|
            0 <= i < self.entries@.len() ==> (#[trigger] self.entries@[i]).sql@.len() > 0
    }

    /// A copy of the labels, in entry order.
    pub fn labels(&self) -> (ls: Vec<Vec<u8>>)
        ensures
            ls@.len() == self.entries@.len(),
            forall|i: int| 0 <= i < ls@.len() ==> (#[trigger] ls@[i])@ == self.entries@[i].label@,
            self.wf() ==> all_distinct(ls@.map_values(|l: Vec<u8>| l@)),
    {
        let mut ls: Vec<Vec<u8>> = Vec::new();
        let mut i: usize = 0;
        while i < self.entries.len()
            invariant
                i <= self.entries@.len(),
                ls@.len() == i,
                forall|k: int| 0 <= k < i ==> (#[trigger] ls@[k])@ == self.entries@[k].label@,
            decreases self.entries@.len() - i,
        {
            ls.push(copy_bytes(&self.entries[i].label));
            i = i + 1;
        }
        proof {
            if self.wf() {
                let lv = ls@.map_values(|l: Vec<u8>| l@);
                assert forall|a: int, b: int| 0 <= a < b < lv.len() implies lv[a] != lv[b] by {
                    assert(lv[a] == ls@[a]@ && ls@[a]@ == self.entries@[a].label@);
                    assert(lv[b] == ls@[b]@ && ls@[b]@ == self.entries@[b].label@);
                    assert(self.label_seq()[a] != self.label_seq()[b]);
                    assert(self.label_seq()[a] == self.entries@[a].label@);
                    assert(self.label_seq()[b] == self.entries@[b].label@);
                }
            }
        }
        ls
    }
}

/// Relies on serde_json::from_slice::<serde_json::Value>: the decoded value is
/// a fixed function of the bytes; a body that is not well-formed fails. On an
/// object, serde_json::Map hands out each key exactly once, in iteration
/// order, paired with its value; only string values carry query text.
#[verifier::external_body]
fn decode_batch_body(body: &Vec<u8>) -> (r: RawBody)
    ensures
        r@ == decoded_batch(body@),
        (r matches RawBody::Object(es) ==> forall|i: int, j: int|
            0 <= i < j < es@.len() ==> es@[i].label@ != es@[j].label@),
{
    let v: serde_json::Value = match serde_json::from_slice(body.as_slice()) {
        Ok(v) => v,
        Err(_) => return RawBody::Undecodable,
    };
    let serde_json::Value::Object(m) = v else {
        return RawBody::NotObject;
    };
    RawBody::Object(m.into_iter().map(|(k, val)| RawEntry {
        label: k.into_bytes(),
        value: match val {
            serde_json::Value::String(s) => RawValue::Text(s.into_bytes()),
            _ => RawValue::NonText,
        },
    }).collect())
}

/// Decodes and validates the inbound body in one step. The decoded shape is
/// `decoded_batch(body)`; the outcome is exactly what `validate` states for
/// that shape.
pub fn parse_batch(body: &Vec<u8>) -> (r: Result<BatchRequest, ParseError>)
    ensures
        (r matches Err(ParseError::MalformedBody)) <==> decoded_batch(body@) is Undecodable,
        (r matches Err(ParseError::InvalidBatchShape)) <==> decoded_batch(body@) is NotObject,
        r is Ok <==> all_entries_ok(decoded_batch(body@)),
        r matches Ok(b) ==> b@ == body_entries(decoded_batch(body@)).map_values(
            |p: (Seq<u8>, DecodedValue)| (p.0, text_of(p.1)),
        ),
        r matches Ok(b) ==> b.wf(),
        r matches Err(ParseError::InvalidQueryValue(l)) ==> (decoded_batch(body@) is Object && (
        exists|i: int|
            0 <= i < body_entries(decoded_batch(body@)).len() && !entry_ok(
                (#[trigger] body_entries(decoded_batch(body@))[i]).1,
            ) && body_entries(decoded_batch(body@))[i].0 == l@ && (forall|j: int|
                0 <= j < i ==> entry_ok((#[trigger] body_entries(decoded_batch(body@))[j]).1)))),
{
    let raw = decode_batch_body(body);
    proof {
        match &raw {
            RawBody::Object(ev) => {
                let es = ev@.map_values(|e: RawEntry| (e.label@, e.value@));
                let ls = es.map_values(|p: (Seq<u8>, DecodedValue)| p.0);
                assert forall|i: int, j: int| 0 <= i < j < ls.len() implies ls[i] != ls[j] by {
                    assert(ls[i] == es[i].0 && es[i].0 == ev@[i].label@);
                    assert(ls[j] == es[j].0 && es[j].0 == ev@[j].label@);
                }
            },
            _ => {},
        }
    }
    validate(raw)
}

/// Checks the decoded body and builds the batch, or rejects it whole:
/// an undecodable body, a non-object body, or any value that is not a
/// non-empty string rejects the entire batch, naming the first bad label.
pub fn validate(raw: RawBody) -> (r: Result<BatchRequest, ParseError>)
    requires
        (raw@ matches DecodedBody::Object(es) ==> all_distinct(
            es.map_values(|p: (Seq<u8>, DecodedValue)| p.0),
        )),
    ensures
        (r matches Err(ParseError::MalformedBody)) <==> raw@ is Undecodable,
        (r matches Err(ParseError::InvalidBatchShape)) <==> raw@ is NotObject,
        r is Ok <==> all_entries_ok(raw@),
        r matches Ok(b) ==> b@ == body_entries(raw@).map_values(
            |p: (Seq<u8>, DecodedValue)| (p.0, text_of(p.1)),
        ),
        r matches Ok(b) ==> b.wf(),
        r matches Err(ParseError::InvalidQueryValue(l)) ==> (raw@ is Object && (exists|i: int|
            0 <= i < body_entries(raw@).len() && !entry_ok((#[trigger] body_entries(raw@)[i]).1)
                && body_entries(raw@)[i].0 == l@ && (forall|j: int|
                0 <= j < i ==> entry_ok((#[trigger] body_entries(raw@)[j]).1)))),
{
    let ghost rawv = raw@;
    let entries_raw = match raw {
        RawBody::Undecodable => {
            return Err(ParseError::MalformedBody);
        },
        RawBody::NotObject => {
            return Err(ParseError::InvalidBatchShape);
        },
        RawBody::Object(es) => es,
    };
    let ghost es = entries_raw@.map_values(|e: RawEntry| (e.label@, e.value@));
    let mut entries: Vec<BatchEntry> = Vec::new();
    let mut i: usize = 0;
    while i < entries_raw.len()
        invariant
            i <= entries_raw@.len(),
            es == entries_raw@.map_values(|e: RawEntry| (e.label@, e.value@)),
            raw@ == DecodedBody::Object(es),
            entries@.len() == i,
            forall|k: int| 0 <= k < i ==> entry_ok(#[trigger] es[k].1),
            forall|k: int|
                0 <= k < i ==> (#[trigger] entries@[k]).label@ == es[k].0 && entries@[k].sql@
                    == text_of(es[k].1),
        decreases entries_raw@.len() - i,
    {
        let label = copy_bytes(&entries_raw[i].label);
        match &entries_raw[i].value {
            RawValue::Text(t) => {
                if t.len() > 0 {
                    let sql = copy_bytes(t);
                    entries.push(BatchEntry { label, sql });
                } else {
                    proof {
                        assert(es[i as int] == (entries_raw@[i as int].label@, entries_raw@[i as int].value@));
                        assert(!entry_ok(es[i as int].1) && es[i as int].0 == label@);
                        assert(body_entries(raw@) == es);
                        assert(!all_entries_ok(raw@));
                    }
                    return Err(ParseError::InvalidQueryValue(label));
                }
            },
            RawValue::NonText => {
                proof {
                    assert(es[i as int] == (entries_raw@[i as int].label@, entries_raw@[i as int].value@));
                    assert(!entry_ok(es[i as int].1) && es[i as int].0 == label@);
                    assert(body_entries(raw@) == es);
                    assert(!all_entries_ok(raw@));
                }
                return Err(ParseError::InvalidQueryValue(label));
            },
        }
        i = i + 1;
    }
    let b = BatchRequest { entries };
    proof {
        assert(b@ =~= es.map_values(|p: (Seq<u8>, DecodedValue)| (p.0, text_of(p.1))));
        let ls = es.map_values(|p: (Seq<u8>, DecodedValue)| p.0);
        assert forall|x: int, y: int|
            0 <= x < y < b.label_seq().len() implies b.label_seq()[x] != b.label_seq()[y] by {
            assert(b.label_seq()[x] == b.entries@[x].label@ && b.entries@[x].label@ == es[x].0);
            assert(b.label_seq()[y] == b.entries@[y].label@ && b.entries@[y].label@ == es[y].0);
            assert(ls[x] == es[x].0 && ls[y] == es[y].0);
            assert(ls[x] != ls[y]);
        }
        assert(forall|k: int|
            0 <= k < b.entries@.len() ==> (#[trigger] b.entries@[k]).sql@ == text_of(es[k].1)
                && entry_ok(es[k].1));
    }
    Ok(b)
}

/// The bytes of `request body is not well-formed`.
pub open spec fn malformed_body_text() -> Seq<u8> {
    seq![114u8, 101u8, 113u8, 117u8, 101u8, 115u8, 116u8, 32u8, 98u8, 111u8, 100u8, 121u8, 32u8, 105u8, 115u8, 32u8, 110u8, 111u8, 116u8, 32u8, 119u8, 101u8, 108u8, 108u8, 45u8, 102u8, 111u8, 114u8, 109u8, 101u8, 100u8]
}

/// The bytes of `not a valid json object`.
pub open spec fn invalid_shape_text() -> Seq<u8> {
    seq![110u8, 111u8, 116u8, 32u8, 97u8, 32u8, 118u8, 97u8, 108u8, 105u8, 100u8, 32u8, 106u8, 115u8, 111u8, 110u8, 32u8, 111u8, 98u8, 106u8, 101u8, 99u8, 116u8]
}

/// The rejection message for a batch: a fixed text for an undecodable or
/// non-object body, and `query <label> must be a valid sql` — the label
/// verbatim — for a bad entry value.
pub open spec fn parse_error_text(e: ParseError) -> Seq<u8> {
    match e {
        ParseError::MalformedBody => malformed_body_text(),
        ParseError::InvalidBatchShape => invalid_shape_text(),
        ParseError::InvalidQueryValue(l) => seq![113u8, 117u8, 101u8, 114u8, 121u8, 32u8] + l@ + seq![32u8, 109u8, 117u8, 115u8, 116u8, 32u8, 98u8, 101u8, 32u8, 97u8, 32u8, 118u8, 97u8, 108u8, 105u8, 100u8, 32u8, 115u8, 113u8, 108u8],
    }
}

/// The human-readable text of a batch rejection, exactly `parse_error_text`.
pub fn parse_error_message(e: &ParseError) -> (msg: Vec<u8>)
    ensures
        msg@ == parse_error_text(*e),
{
    let mut m: Vec<u8> = Vec::new();
    match e {
        ParseError::MalformedBody => {
            // the bytes of `request body is not well-formed`
            m.push(114);
            m.push(101);
            m.push(113);
            m.push(117);
            m.push(101);
            m.push(115);
            m.push(116);
            m.push(32);
            m.push(98);
            m.push(111);
            m.push(100);
            m.push(121);
            m.push(32);
            m.push(105);
            m.push(115);
            m.push(32);
            m.push(110);
            m.push(111);
            m.push(116);
            m.push(32);
            m.push(119);
            m.push(101);
            m.push(108);
            m.push(108);
            m.push(45);
            m.push(102);
            m.push(111);
            m.push(114);
            m.push(109);
            m.push(101);
            m.push(100);
            proof {
                assert(m@ =~= malformed_body_text());
            }
        },
        ParseError::InvalidBatchShape => {
            // the bytes of `not a valid json object`
            m.push(110);
            m.push(111);
            m.push(116);
            m.push(32);
            m.push(97);
            m.push(32);
            m.push(118);
            m.push(97);
            m.push(108);
            m.push(105);
            m.push(100);
            m.push(32);
            m.push(106);
            m.push(115);
            m.push(111);
            m.push(110);
            m.push(32);
            m.push(111);
            m.push(98);
            m.push(106);
            m.push(101);
            m.push(99);
            m.push(116);
            proof {
                assert(m@ =~= invalid_shape_text());
            }
        },
        ParseError::InvalidQueryValue(l) => {
            let ghost e0 = *e;
            // the bytes of `query `
            m.push(113);
            m.push(117);
            m.push(101);
            m.push(114);
            m.push(121);
            m.push(32);
            m = emit_bytes(m, l);
            let ghost mid = m@;
            // the bytes of ` must be a valid sql`
            m.push(32);
            m.push(109);
            m.push(117);
            m.push(115);
            m.push(116);
            m.push(32);
            m.push(98);
            m.push(101);
            m.push(32);
            m.push(97);
            m.push(32);
            m.push(118);
            m.push(97);
            m.push(108);
            m.push(105);
            m.push(100);
            m.push(32);
            m.push(115);
            m.push(113);
            m.push(108);
            proof {
                assert(m@ =~= parse_error_text(e0));
            }
        },
    }
    m
}

} // verus!


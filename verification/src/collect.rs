//! Fan-in of query outcomes into label-indexed slots, and the aggregated
//! response. Each dispatched label owns exactly one slot; completions may
//! arrive in any order, and an outcome lands under the label it carries,
//! never under its completion rank.

use vstd::prelude::*;
use crate::scalar::QueryData;
use crate::bytes::bytes_eq;
use crate::bytes::all_distinct;
use crate::bytes::lemma_distinct_index_unique;

verus! {

/// The terminal result of one dispatched query.
#[derive(Debug, PartialEq, Eq)]
pub enum Outcome {
    /// The query succeeded with these materialized rows.
    Rows(QueryData),
    /// The query failed; the backend's message, forwarded verbatim.
    Failed(Vec<u8>),
}

impl Outcome {
    /// A success outcome must carry well-formed rows.
    pub open spec fn wf(self) -> bool {
        match self {
            Outcome::Rows(d) => d.wf(),
            Outcome::Failed(_) => true,
        }
    }
}

/// One response entry: a label and the outcome of its query.
pub struct ResponseEntry {
    pub label: Vec<u8>,
    pub outcome: Outcome,
}

/// The aggregated response: exactly one entry per request label, in request
/// order; an entry is rows or an error, never both.
pub struct BatchResponse {
    pub entries: Vec<ResponseEntry>,
}

impl BatchResponse {
    /// The labels of the entries, in order.
    pub open spec fn label_seq(self) -> Seq<Seq<u8>> {
        self.entries@.map_values(|e: ResponseEntry| e.label@)
    }

    /// Labels are distinct and every success entry carries well-formed rows.
    pub open spec fn wf(self) -> bool {
        &&& all_distinct(self.label_seq())
        &&& forall|i: int|
            0 <= i < self.entries@.len() ==> (#[trigger] self.entries@[i]).outcome.wf()
    }
}

/// Label-indexed fan-in slots. Slot `i` belongs to label `i` alone; it is
/// empty until that label's task reaches its terminal state.
pub struct Collector {
    pub labels: Vec<Vec<u8>>,
    pub slots: Vec<Option<Outcome>>,
}

/// The slot sequence after recording `o` under `label`: if some slot belongs
/// to `label` and is still empty, exactly that slot is filled; otherwise
/// nothing changes.
pub open spec fn recorded(labels: Seq<Seq<u8>>, slots: Seq<Option<Outcome>>, label: Seq<u8>, o: Outcome) -> Seq<
    Option<Outcome>,
> {
    if exists|i: int| 0 <= i < labels.len() && labels[i] == label && slots[i] is None {
        let i = choose|i: int| 0 <= i < labels.len() && labels[i] == label && slots[i] is None;
        slots.update(i, Some(o))
    } else {
        slots
    }
}

impl Collector {
    /// The labels, in dispatch order.
    pub open spec fn label_seq(self) -> Seq<Seq<u8>> {
        self.labels@.map_values(|l: Vec<u8>| l@)
    }

    /// One slot per label, labels distinct, filled slots well-formed.
    pub open spec fn wf(self) -> bool {
        &&& self.slots@.len() == self.labels@.len()
        &&& all_distinct(self.label_seq())
        &&& forall|i: int|
            0 <= i < self.slots@.len() ==> ((#[trigger] self.slots@[i]) matches Some(o) ==> o.wf())
    }

    /// All tasks have reached a terminal state.
    pub open spec fn is_complete(self) -> bool {
        forall|i: int| 0 <= i < self.slots@.len() ==> (#[trigger] self.slots@[i]) is Some
    }

    /// Opens one empty slot per label. The labels must be distinct, as the
    /// validated request guarantees.
    pub fn new(labels: Vec<Vec<u8>>) -> (c: Collector)
        requires
            all_distinct(labels@.map_values(|l: Vec<u8>| l@)),
        ensures
            c.wf(),
            c.labels@ == labels@,
            c.slots@.len() == labels@.len(),
            forall|i: int| 0 <= i < c.slots@.len() ==> (#[trigger] c.slots@[i]) is None,
    {
        let mut slots: Vec<Option<Outcome>> = Vec::new();
        let n = labels.len();
        let mut i: usize = 0;
        while i < n
            invariant
                i <= n,
                slots@.len() == i,
                forall|k: int| 0 <= k < i ==> (#[trigger] slots@[k]) is None,
            decreases n - i,
        {
            slots.push(None);
            i = i + 1;
        }
        Collector { labels, slots }
    }

    /// Opens the fan-in for a validated request: one empty slot per label,
    /// in request order.
    pub fn for_request(req: &crate::request::BatchRequest) -> (c: Collector)
        requires
            req.wf(),
        ensures
            c.wf(),
            c.label_seq() == req.label_seq(),
            c.slots@.len() == req.entries@.len(),
            forall|i: int| 0 <= i < c.slots@.len() ==> (#[trigger] c.slots@[i]) is None,
    {
        let ls = req.labels();
        let c = Collector::new(ls);
        proof {
            assert forall|i: int| 0 <= i < c.label_seq().len() implies c.label_seq()[i]
                == req.label_seq()[i] by {
                assert(c.label_seq()[i] == c.labels@[i]@);
                assert(req.label_seq()[i] == req.entries@[i].label@);
            }
            assert(c.label_seq() =~= req.label_seq());
        }
        c
    }

    /// Records one terminal outcome under the label it carries. Returns true
    /// exactly when the label owns a slot that was still empty; otherwise the
    /// collector is unchanged.
    pub fn record(&mut self, label: &Vec<u8>, outcome: Outcome) -> (r: bool)
        requires
            old(self).wf(),
            outcome.wf(),
        ensures
            final(self).wf(),
            final(self).labels@ == old(self).labels@,
            final(self).slots@ == recorded(old(self).label_seq(), old(self).slots@, label@, outcome),
            r == exists|i: int|
                0 <= i < old(self).labels@.len() && old(self).labels@[i]@ == label@ && old(
                    self,
                ).slots@[i] is None,
    {
        let n = self.labels.len();
        let mut i: usize = 0;
        while i < n
            invariant
                i <= n,
                n == self.labels@.len(),
                *self == *old(self),
                old(self).wf(),
                outcome.wf(),
                forall|k: int| 0 <= k < i ==> old(self).labels@[k]@ != label@,
            decreases n - i,
        {
            if bytes_eq(&self.labels[i], label) {
                let filled = self.slots[i].is_none();
                if filled {
                    self.slots.set(i, Some(outcome));
                    proof {
                        let ghost ls = old(self).label_seq();
                        assert(ls[i as int] == old(self).labels@[i as int]@);
                        assert(ls.len() > i as int && ls[i as int] == label@ && old(
                            self,
                        ).slots@[i as int] is None);
                        let ghost w = choose|k: int|
                            0 <= k < ls.len() && ls[k] == label@ && old(self).slots@[k] is None;
                        lemma_distinct_index_unique(ls, w, i as int);
                    }
                    return true;
                } else {
                    proof {
                        let ghost ls = old(self).label_seq();
                        assert(ls[i as int] == old(self).labels@[i as int]@);
                        assert forall|k: int|
                            0 <= k < old(self).labels@.len() && old(self).labels@[k]@
                                == label@ implies k == i as int by {
                            assert(ls[k] == old(self).labels@[k]@);
                            lemma_distinct_index_unique(ls, k, i as int);
                        }
                        assert(old(self).slots@[i as int] is Some);
                    }
                    return false;
                }
            }
            i = i + 1;
        }
        false
    }

    /// True exactly when every slot is filled: the join barrier is passed.
    pub fn complete(&self) -> (r: bool)
        ensures
            r == self.is_complete(),
    {
        let mut i: usize = 0;
        while i < self.slots.len()
            invariant
                i <= self.slots@.len(),
                forall|k: int| 0 <= k < i ==> (#[trigger] self.slots@[k]) is Some,
            decreases self.slots@.len() - i,
        {
            if self.slots[i].is_none() {
                return false;
            }
            i = i + 1;
        }
        true
    }

    /// Turns the filled slots into the response: entry `i` pairs label `i`
    /// with the outcome recorded for it, in dispatch order.
    pub fn finish(self) -> (resp: BatchResponse)
        requires
            self.wf(),
            self.is_complete(),
        ensures
            resp.wf(),
            resp.entries@.len() == self.labels@.len(),
            forall|i: int|
                0 <= i < resp.entries@.len() ==> (#[trigger] resp.entries@[i]).label@
                    == self.labels@[i]@,
            forall|i: int|
                0 <= i < resp.entries@.len() ==> Some((#[trigger] resp.entries@[i]).outcome)
                    == self.slots@[i],
    {
        let Collector { labels: mut labels, slots: mut slots } = self;
        let ghost labels0 = labels@;
        let ghost slots0 = slots@;
        let mut entries: Vec<ResponseEntry> = Vec::new();
        while labels.len() > 0
            invariant
                slots@.len() == labels@.len(),
                entries@.len() + labels@.len() == labels0.len(),
                slots0.len() == labels0.len(),
                labels@ == labels0.skip(entries@.len() as int),
                slots@ == slots0.skip(entries@.len() as int),
                forall|i: int|
                    0 <= i < entries@.len() ==> (#[trigger] entries@[i]).label@ == labels0[i]@,
                forall|i: int|
                    0 <= i < entries@.len() ==> Some((#[trigger] entries@[i]).outcome) == slots0[i],
                forall|i: int| 0 <= i < slots0.len() ==> (#[trigger] slots0[i]) is Some,
                forall|i: int| 0 <= i < slots0.len() ==> ((#[trigger] slots0[i]) matches Some(o) ==> o.wf()),
                all_distinct(labels0.map_values(|l: Vec<u8>| l@)),
            decreases labels@.len(),
        {
            let ghost k = entries@.len() as int;
            let label = labels.remove(0);
            let slot = slots.remove(0);
            proof {
                assert(labels0.skip(k)[0] == labels0[k]);
                assert(slots0.skip(k)[0] == slots0[k]);
                assert(labels0.skip(k).remove(0) =~= labels0.skip(k + 1));
                assert(slots0.skip(k).remove(0) =~= slots0.skip(k + 1));
            }
            let outcome = match slot {
                Some(o) => o,
                None => vstd::pervasive::unreached(),
            };
            entries.push(ResponseEntry { label, outcome });
        }
        let resp = BatchResponse { entries };
        proof {
            let ghost ls0 = labels0.map_values(|l: Vec<u8>| l@);
            assert forall|i: int, j: int|
                0 <= i < j < resp.label_seq().len() implies resp.label_seq()[i]
                != resp.label_seq()[j] by {
                assert(resp.label_seq()[i] == resp.entries@[i].label@);
                assert(resp.label_seq()[j] == resp.entries@[j].label@);
                assert(ls0[i] == labels0[i]@);
                assert(ls0[j] == labels0[j]@);
                assert(ls0[i] != ls0[j]);
            }
        }
        resp
    }
}

/// Failure isolation: recording an outcome under one label never changes the
/// slot of any other label.
pub proof fn lemma_record_isolated(
    labels: Seq<Seq<u8>>,
    slots: Seq<Option<Outcome>>,
    label: Seq<u8>,
    o: Outcome,
)
    requires
        slots.len() == labels.len(),
    ensures
        forall|k: int|
            0 <= k < labels.len() && labels[k] != label ==> recorded(labels, slots, label, o)[k]
                == slots[k],
        recorded(labels, slots, label, o).len() == slots.len(),
{
}

/// Completion order is immaterial: outcomes for two distinct labels land in
/// the same slots whichever is recorded first.
pub proof fn lemma_record_order_immaterial(
    labels: Seq<Seq<u8>>,
    slots: Seq<Option<Outcome>>,
    l1: Seq<u8>,
    o1: Outcome,
    l2: Seq<u8>,
    o2: Outcome,
)
    requires
        slots.len() == labels.len(),
        all_distinct(labels),
        l1 != l2,
    ensures
        recorded(labels, recorded(labels, slots, l1, o1), l2, o2) == recorded(
            labels,
            recorded(labels, slots, l2, o2),
            l1,
            o1,
        ),
{
    let s12 = recorded(labels, recorded(labels, slots, l1, o1), l2, o2);
    let s21 = recorded(labels, recorded(labels, slots, l2, o2), l1, o1);
    if exists|i: int| 0 <= i < labels.len() && labels[i] == l1 && slots[i] is None {
        let i1 = choose|i: int| 0 <= i < labels.len() && labels[i] == l1 && slots[i] is None;
        if exists|i: int| 0 <= i < labels.len() && labels[i] == l2 && slots[i] is None {
            let i2 = choose|i: int| 0 <= i < labels.len() && labels[i] == l2 && slots[i] is None;
            assert(i1 != i2);
            assert(s12 =~= slots.update(i1, Some(o1)).update(i2, Some(o2)));
            assert(s21 =~= slots.update(i2, Some(o2)).update(i1, Some(o1)));
            assert(s12 =~= s21);
        } else {
            assert(forall|i: int|
                0 <= i < labels.len() && labels[i] == l2 ==> slots.update(i1, Some(o1))[i]
                    == slots[i]);
            assert(s12 =~= slots.update(i1, Some(o1)));
            assert(s21 =~= slots.update(i1, Some(o1)));
        }
    } else {
        if exists|i: int| 0 <= i < labels.len() && labels[i] == l2 && slots[i] is None {
            let i2 = choose|i: int| 0 <= i < labels.len() && labels[i] == l2 && slots[i] is None;
            assert(forall|i: int|
                0 <= i < labels.len() && labels[i] == l1 ==> slots.update(i2, Some(o2))[i]
                    == slots[i]);
            assert(s12 =~= slots.update(i2, Some(o2)));
            assert(s21 =~= slots.update(i2, Some(o2)));
        } else {
            assert(s12 =~= slots);
            assert(s21 =~= slots);
        }
    }
}

/// Every request label appears exactly once in the response's label set, and
/// the response has exactly as many entries as the request has labels.
pub proof fn lemma_labels_exactly_once(resp: BatchResponse, req_labels: Seq<Seq<u8>>)
    requires
        resp.label_seq() == req_labels,
        all_distinct(req_labels),
    ensures
        resp.entries@.len() == req_labels.len(),
        forall|l: Seq<u8>| resp.label_seq().contains(l) <==> req_labels.contains(l),
        forall|i: int, j: int|
            0 <= i < j < resp.entries@.len() ==> resp.entries@[i].label@ != resp.entries@[j].label@,
{
    assert(resp.label_seq().len() == resp.entries@.len());
    assert(forall|i: int|
        0 <= i < resp.entries@.len() ==> resp.label_seq()[i] == (#[trigger] resp.entries@[i]).label@);
}

/// When every recorded outcome is a success, no response entry is an error.
pub proof fn lemma_success_only_response(resp: BatchResponse, slots: Seq<Option<Outcome>>)
    requires
        slots.len() == resp.entries@.len(),
        forall|i: int| 0 <= i < slots.len() ==> Some((#[trigger] resp.entries@[i]).outcome) == slots[i],
        forall|i: int| 0 <= i < slots.len() ==> ((#[trigger] slots[i]) matches Some(o) ==> o is Rows),
    ensures
        forall|i: int| 0 <= i < resp.entries@.len() ==> (#[trigger] resp.entries@[i]).outcome is Rows,
{
}

} // verus!

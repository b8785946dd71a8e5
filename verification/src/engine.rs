//! The suppression engine: decides, at span-creation time, whether a new
//! span is suppressed, and keeps the created spans in a registry so that a
//! child reads its parent's already-resolved flag with one indexed lookup.

use vstd::prelude::*;

use crate::fields::{FieldModel, FieldSet};
use crate::filters::{set_matches, FilterSet};

verus! {

/// One created span: its parent, if any, and its suppressed flag, written
/// exactly once, at creation, and never changed afterwards.
pub struct SpanRecord {
    /// The registry index of the parent span, or `None` for a root span.
    pub parent: Option<usize>,
    /// Whether the span is suppressed from the event sink.
    pub suppressed: bool,
}

/// The suppression rule for one new span: a span whose parent was
/// suppressed at its creation is suppressed regardless of its own fields;
/// a root span, or one whose parent was not suppressed, is suppressed
/// exactly when some rule of the snapshot matches one of its fields.
pub open spec fn suppression_decision(
    parent_sup: bool,
    rules: Map<Seq<char>, Seq<char>>,
    fields: Seq<FieldModel>,
) -> bool {
    if parent_sup {
        true
    } else {
        set_matches(rules, fields)
    }
}

/// Whether `span` names a suppressed record: `None` (no active span)
/// counts as not suppressed.
pub open spec fn span_suppressed(records: Seq<SpanRecord>, span: Option<usize>) -> bool {
    match span {
        Some(s) => records[s as int].suppressed,
        None => false,
    }
}

/// Every record's parent stands earlier in the registry, and a record
/// whose parent is suppressed is suppressed itself.
pub open spec fn records_wf(records: Seq<SpanRecord>) -> bool {
    forall|i: int|
        0 <= i < records.len() ==> match (#[trigger] records[i]).parent {
            Some(p) => p < i && (records[p as int].suppressed ==> records[i].suppressed),
            None => true,
        }
}

/// The pure decision of the engine for one new span, from the parent's
/// stored flag and one consistent read of the rule snapshot.
pub fn decide_suppression(parent_sup: bool, filters: &FilterSet, fields: &FieldSet) -> (r: bool)
    requires
        filters.wf(),
    ensures
        r == suppression_decision(parent_sup, filters@, fields@),
{
    if parent_sup {
        true
    } else {
        filters.matches_fields(fields)
    }
}

/// The registry of created spans, addressed by index.
pub struct SpanRegistry {
    spans: Vec<SpanRecord>,
}

impl SpanRegistry {
    /// The records created so far, in creation order.
    pub closed spec fn records(&self) -> Seq<SpanRecord> {
        self.spans@
    }

    /// Well-formed: see [`records_wf`].
    pub closed spec fn wf(&self) -> bool {
        records_wf(self.spans@)
    }

    /// An empty registry.
    pub fn new() -> (r: SpanRegistry)
        ensures
            r.wf(),
            r.records() == Seq::<SpanRecord>::empty(),
    {
        let r = SpanRegistry { spans: Vec::new() };
        proof {
            assert(r.spans@ =~= Seq::<SpanRecord>::empty());
        }
        r
    }

    /// How many spans have been created.
    pub fn len(&self) -> (n: usize)
        ensures
            n == self.records().len(),
    {
        self.spans.len()
    }

    /// Creates a span, deciding its suppressed flag once, now, from the
    /// parent's flag as stored at this instant and the given snapshot;
    /// later mutations of either do not touch the created record.
    pub fn create_span(
        &mut self,
        parent: Option<usize>,
        fields: &FieldSet,
        filters: &FilterSet,
    ) -> (id: usize)
        requires
            old(self).wf(),
            filters.wf(),
            match parent {
                Some(p) => p < old(self).records().len(),
                None => true,
            },
        ensures
            final(self).wf(),
            id == old(self).records().len(),
            final(self).records() == old(self).records().push(
                SpanRecord {
                    parent,
                    suppressed: suppression_decision(
                        span_suppressed(old(self).records(), parent),
                        filters@,
                        fields@,
                    ),
                },
            ),
    {
        let parent_sup = match parent {
            Some(p) => self.spans[p].suppressed,
            None => false,
        };
        let id = self.spans.len();
        let suppressed = decide_suppression(parent_sup, filters, fields);
        let ghost before = self.spans@;
        self.spans.push(SpanRecord { parent, suppressed });
        proof {
            assert(self.spans@ =~= before.push(SpanRecord { parent, suppressed }));
            assert(records_wf(self.spans@)) by {
                assert(forall|i: int| 0 <= i < before.len() ==> self.spans@[i] == before[i]);
            }
        }
        id
    }

    /// The stored flag of one created span.
    pub fn is_suppressed(&self, id: usize) -> (r: bool)
        requires
            id < self.records().len(),
        ensures
            r == self.records()[id as int].suppressed,
    {
        self.spans[id].suppressed
    }

    /// Whether the sink may emit an event under the given active span:
    /// emission is refused exactly when that span's own stored flag says
    /// suppressed (the flag already encodes inheritance); with no active
    /// span, emission is always allowed.
    pub fn is_emission_allowed(&self, active: Option<usize>) -> (r: bool)
        requires
            match active {
                Some(s) => s < self.records().len(),
                None => true,
            },
        ensures
            r == !span_suppressed(self.records(), active),
    {
        match active {
            Some(s) => !self.spans[s].suppressed,
            None => true,
        }
    }
}

/// Inheritance: a span whose parent is suppressed is itself suppressed,
/// whatever its own fields — at creation, because the decision is `true`
/// whenever the parent's flag is, and for the registry's whole lifetime,
/// because a stored flag never changes.
pub proof fn lemma_suppression_inherited(records: Seq<SpanRecord>, i: int, p: usize)
    requires
        records_wf(records),
        0 <= i < records.len(),
        records[i].parent == Some(p),
        records[p as int].suppressed,
    ensures
        records[i].suppressed,
{
}

/// Inheritance at the decision itself: with a suppressed parent the
/// decision is `true` for every rule snapshot and every field list.
pub proof fn lemma_decision_inherits(rules: Map<Seq<char>, Seq<char>>, fields: Seq<FieldModel>)
    ensures
        suppression_decision(true, rules, fields),
{
}

/// A root span, or one whose parent is not suppressed, is suppressed
/// exactly when some rule of the snapshot matches one of its fields.
pub proof fn lemma_decision_root_or_live_parent(
    rules: Map<Seq<char>, Seq<char>>,
    fields: Seq<FieldModel>,
)
    ensures
        suppression_decision(false, rules, fields) == set_matches(rules, fields),
{
}

} // verus!

//! `FilterSet`: an immutable snapshot of active suppression rules, a mapping
//! from field name to one required string value.

use vstd::prelude::*;

use crate::fields::{str_eq, FieldModel, FieldSet, has_text_field};
use crate::fields::value_in_valueset;

verus! {

/// One suppression rule: spans carrying a string-typed field named `field`
/// whose value equals `value` exactly are suppressed.
pub struct FilterRule {
    pub field: String,
    pub value: String,
}

/// The mapping that a sequence of rules denotes; a later rule for the same
/// field name overwrites an earlier one (last writer wins).
spec fn rules_map(rs: Seq<FilterRule>) -> Map<Seq<char>, Seq<char>>
    decreases rs.len(),
{
    if rs.len() == 0 {
        Map::empty()
    } else {
        rules_map(rs.drop_last()).insert(rs.last().field@, rs.last().value@)
    }
}

/// No two rules in `rs` are for the same field name.
spec fn rules_unique(rs: Seq<FilterRule>) -> bool {
    forall|a: int, b: int|
        0 <= a < b < rs.len() ==> (#[trigger] rs[a].field@) != (#[trigger] rs[b].field@)
}

/// The denoted mapping contains exactly the field names of the rules.
proof fn lemma_rules_map_contains(rs: Seq<FilterRule>, k: Seq<char>)
    ensures
        rules_map(rs).contains_key(k) <==> (exists|i: int|
            0 <= i < rs.len() && (#[trigger] rs[i].field@) == k),
    decreases rs.len(),
{
    if rs.len() == 0 {
    } else {
        lemma_rules_map_contains(rs.drop_last(), k);
        if rs.last().field@ == k {
            assert(rs[rs.len() - 1].field@ == k);
        } else {
            if exists|i: int| 0 <= i < rs.len() && (#[trigger] rs[i].field@) == k {
                let i = choose|i: int| 0 <= i < rs.len() && (#[trigger] rs[i].field@) == k;
                assert(rs.drop_last()[i].field@ == k);
            }
            if exists|i: int| 0 <= i < rs.drop_last().len() && (#[trigger] rs.drop_last()[i].field@) == k {
                let i = choose|i: int|
                    0 <= i < rs.drop_last().len() && (#[trigger] rs.drop_last()[i].field@) == k;
                assert(rs[i].field@ == k);
            }
        }
    }
}

/// With unique field names, the mapping sends each rule's field name to
/// that rule's value.
proof fn lemma_rules_map_get(rs: Seq<FilterRule>, i: int)
    requires
        0 <= i < rs.len(),
        rules_unique(rs),
    ensures
        rules_map(rs).contains_key(rs[i].field@),
        rules_map(rs)[rs[i].field@] == rs[i].value@,
    decreases rs.len(),
{
    if i == rs.len() - 1 {
    } else {
        assert(rules_unique(rs.drop_last())) by {
            assert(forall|a: int, b: int|
                0 <= a < b < rs.drop_last().len() ==> (#[trigger] rs.drop_last()[a].field@)
                    != (#[trigger] rs.drop_last()[b].field@)) by {
                assert(forall|a: int| 0 <= a < rs.len() - 1 ==> rs.drop_last()[a] == rs[a]);
            }
        }
        assert(rs.drop_last()[i] == rs[i]);
        lemma_rules_map_get(rs.drop_last(), i);
        assert(rs[i].field@ != rs.last().field@);
    }
}

/// Appending a rule inserts its pair into the denoted mapping.
proof fn lemma_rules_map_push(rs: Seq<FilterRule>, r2: FilterRule)
    ensures
        rules_map(rs.push(r2)) == rules_map(rs).insert(r2.field@, r2.value@),
{
    assert(rs.push(r2).drop_last() =~= rs);
    assert(rs.push(r2).last() == r2);
}

/// Replacing the one rule for a field name updates just that entry.
proof fn lemma_rules_map_update(rs: Seq<FilterRule>, i: int, r2: FilterRule)
    requires
        0 <= i < rs.len(),
        rules_unique(rs),
        rs[i].field@ == r2.field@,
    ensures
        rules_map(rs.update(i, r2)) == rules_map(rs).insert(r2.field@, r2.value@),
    decreases rs.len(),
{
    let k = r2.field@;
    let v = r2.value@;
    if i == rs.len() - 1 {
        assert(rs.update(i, r2).drop_last() =~= rs.drop_last());
        assert(rs.update(i, r2).last() == r2);
        assert(rules_map(rs.drop_last()).insert(k, v) =~= rules_map(rs).insert(k, v));
    } else {
        assert(rules_unique(rs.drop_last())) by {
            assert(forall|a: int| 0 <= a < rs.len() - 1 ==> rs.drop_last()[a] == rs[a]);
        }
        assert(rs.drop_last()[i] == rs[i]);
        lemma_rules_map_update(rs.drop_last(), i, r2);
        assert(rs.update(i, r2).drop_last() =~= rs.drop_last().update(i, r2));
        assert(rs.update(i, r2).last() == rs.last());
        assert(rs[i].field@ != rs.last().field@);
        assert(rules_map(rs.drop_last()).insert(k, v).insert(rs.last().field@, rs.last().value@)
            =~= rules_map(rs.drop_last()).insert(rs.last().field@, rs.last().value@).insert(k, v));
    }
}

/// An immutable snapshot of the active suppression rules: at most one rule
/// per field name. Mutation happens only by building a new snapshot.
pub struct FilterSet {
    rules: Vec<FilterRule>,
}

impl View for FilterSet {
    type V = Map<Seq<char>, Seq<char>>;

    closed spec fn view(&self) -> Map<Seq<char>, Seq<char>> {
        rules_map(self.rules@)
    }
}

/// Whether some rule of `m` matches one of the span's fields: the span has
/// a string-typed field with the rule's name and exactly the rule's value.
pub open spec fn set_matches(m: Map<Seq<char>, Seq<char>>, fields: Seq<FieldModel>) -> bool {
    exists|k: Seq<char>| (#[trigger] m.contains_key(k)) && has_text_field(fields, k, m[k])
}

impl FilterSet {
    /// Well-formed: no two rules share a field name.
    pub closed spec fn wf(&self) -> bool {
        rules_unique(self.rules@)
    }

    /// The snapshot with no rules at all.
    pub fn empty() -> (r: FilterSet)
        ensures
            r.wf(),
            r@ == Map::<Seq<char>, Seq<char>>::empty(),
    {
        FilterSet { rules: Vec::new() }
    }

    /// A new snapshot equal to this one but with a rule for `field`
    /// requiring `value`; an existing rule for `field` is overwritten.
    pub fn with_rule(&self, field: String, value: String) -> (r: FilterSet)
        requires
            self.wf(),
        ensures
            r.wf(),
            r@ == self@.insert(field@, value@),
    {
        let ghost kf = field@;
        let ghost kv = value@;
        let n = self.rules.len();
        let mut i: usize = 0;
        while i < n
            invariant
                i <= n,
                n == self.rules@.len(),
                self.wf(),
                forall|j: int| 0 <= j < i ==> (#[trigger] self.rules@[j].field@) != kf,
                field@ == kf,
                value@ == kv,
            decreases n - i,
        {
            if str_eq(self.rules[i].field.as_str(), field.as_str()) {
                // Overwrite in place: copy the other rules, put the new rule
                // where the old one for this field name stood.
                let mut out: Vec<FilterRule> = Vec::new();
                let mut j: usize = 0;
                while j < i
                    invariant
                        out@.len() == j,
                        j <= i < n,
                        n == self.rules@.len(),
                        forall|t: int| 0 <= t < j ==> out@[t] == self.rules@[t],
                    decreases i - j,
                {
                    let src = &self.rules[j];
                    out.push(FilterRule { field: src.field.clone(), value: src.value.clone() });
                    j += 1;
                }
                out.push(FilterRule { field, value });
                let mut j2: usize = i + 1;
                while j2 < n
                    invariant
                        out@.len() == j2,
                        i < j2 <= n,
                        n == self.rules@.len(),
                        forall|t: int| 0 <= t < i ==> out@[t] == self.rules@[t],
                        out@[i as int].field@ == kf,
                        out@[i as int].value@ == kv,
                        forall|t: int| i < t < j2 ==> out@[t] == self.rules@[t],
                    decreases n - j2,
                {
                    let src = &self.rules[j2];
                    out.push(FilterRule { field: src.field.clone(), value: src.value.clone() });
                    j2 += 1;
                }
                proof {
                    assert(out@ =~= self.rules@.update(i as int, out@[i as int]));
                    lemma_rules_map_update(self.rules@, i as int, out@[i as int]);
                    assert(rules_unique(out@)) by {
                        assert(forall|t: int|
                            0 <= t < n ==> (#[trigger] out@[t].field@)
                                == self.rules@.update(i as int, out@[i as int])[t].field@);
                        assert(forall|t: int|
                            0 <= t < n && t != i ==> out@[t].field@ == self.rules@[t].field@);
                    }
                }
                return FilterSet { rules: out };
            }
            i += 1;
        }
        // No rule for this field name yet: append one.
        let mut out: Vec<FilterRule> = Vec::new();
        let mut j: usize = 0;
        while j < n
            invariant
                out@.len() == j,
                j <= n,
                n == self.rules@.len(),
                forall|t: int| 0 <= t < j ==> out@[t] == self.rules@[t],
            decreases n - j,
        {
            let src = &self.rules[j];
            out.push(FilterRule { field: src.field.clone(), value: src.value.clone() });
            j += 1;
        }
        proof {
            assert(out@ =~= self.rules@);
        }
        out.push(FilterRule { field, value });
        proof {
            assert(out@ =~= self.rules@.push(out@.last()));
            lemma_rules_map_push(self.rules@, out@.last());
            assert(rules_unique(out@)) by {
                assert(forall|t: int| 0 <= t < n ==> out@[t] == self.rules@[t]);
            }
        }
        FilterSet { rules: out }
    }

    /// Whether any rule of this snapshot matches one of the span's fields.
    pub fn matches_fields(&self, fields: &FieldSet) -> (r: bool)
        requires
            self.wf(),
        ensures
            r == set_matches(self@, fields@),
    {
        let n = self.rules.len();
        let mut i: usize = 0;
        while i < n
            invariant
                i <= n,
                n == self.rules@.len(),
                self.wf(),
                forall|j: int| 0 <= j < i ==> !has_text_field(
                    fields@,
                    (#[trigger] self.rules@[j].field@),
                    self.rules@[j].value@,
                ),
            decreases n - i,
        {
            let rule = &self.rules[i];
            if value_in_valueset(fields, rule.field.as_str(), rule.value.as_str()) {
                proof {
                    lemma_rules_map_get(self.rules@, i as int);
                    assert(self@.contains_key(self.rules@[i as int].field@)
                        && has_text_field(
                        fields@,
                        self.rules@[i as int].field@,
                        self@[self.rules@[i as int].field@],
                    ));
                }
                return true;
            }
            i += 1;
        }
        proof {
            assert forall|k: Seq<char>| #[trigger]
                self@.contains_key(k) implies !has_text_field(fields@, k, self@[k]) by {
                lemma_rules_map_contains(self.rules@, k);
                let j = choose|j: int|
                    0 <= j < self.rules@.len() && (#[trigger] self.rules@[j].field@) == k;
                lemma_rules_map_get(self.rules@, j);
            }
        }
        false
    }

    /// The value the snapshot requires for `field`, if it has a rule for it.
    pub fn rule_value(&self, field: &str) -> (r: Option<String>)
        requires
            self.wf(),
        ensures
            match r {
                Some(v) => self@.contains_key(field@) && v@ == self@[field@],
                None => !self@.contains_key(field@),
            },
    {
        let n = self.rules.len();
        let mut i: usize = 0;
        while i < n
            invariant
                i <= n,
                n == self.rules@.len(),
                self.wf(),
                forall|j: int| 0 <= j < i ==> (#[trigger] self.rules@[j].field@) != field@,
            decreases n - i,
        {
            if str_eq(self.rules[i].field.as_str(), field) {
                proof {
                    lemma_rules_map_get(self.rules@, i as int);
                }
                return Some(self.rules[i].value.clone());
            }
            i += 1;
        }
        proof {
            lemma_rules_map_contains(self.rules@, field@);
        }
        None
    }

    /// Whether the snapshot holds no rule at all.
    pub fn is_empty(&self) -> (r: bool)
        requires
            self.wf(),
        ensures
            r == (self@ == Map::<Seq<char>, Seq<char>>::empty()),
    {
        let n = self.rules.len();
        if n == 0 {
            true
        } else {
            proof {
                lemma_rules_map_get(self.rules@, 0);
                assert(self@ != Map::<Seq<char>, Seq<char>>::empty()) by {
                    assert(!Map::<Seq<char>, Seq<char>>::empty().contains_key(
                        self.rules@[0].field@,
                    ));
                }
            }
            false
        }
    }
}

impl Clone for FilterSet {
    /// A copy of the snapshot, rule for rule.
    fn clone(&self) -> (r: Self)
        ensures
            r@ == self@,
            r.wf() == self.wf(),
    {
        let n = self.rules.len();
        let mut out: Vec<FilterRule> = Vec::new();
        let mut j: usize = 0;
        while j < n
            invariant
                out@.len() == j,
                j <= n,
                n == self.rules@.len(),
                forall|t: int| 0 <= t < j ==> out@[t] == self.rules@[t],
            decreases n - j,
        {
            let src = &self.rules[j];
            out.push(FilterRule { field: src.field.clone(), value: src.value.clone() });
            j += 1;
        }
        proof {
            assert(out@ =~= self.rules@);
        }
        FilterSet { rules: out }
    }
}

} // verus!

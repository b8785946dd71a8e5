//! The span-field data model: named, typed values attached to a span at
//! creation, and the exact-match test that filter rules use.

use vstd::prelude::*;
use vstd::string::*;

verus! {

/// The value of one span field. Only text values take part in filter
/// matching; a rule never matches a field of any other kind.
pub enum FieldValue {
    /// A string-typed value, the only kind a rule can match.
    Text(String),
    /// A signed integer value.
    Int(i64),
    /// A boolean value.
    Boolean(bool),
    /// A value of any other kind, carried but never matched.
    Opaque,
}

/// The mathematical model of a [`FieldValue`].
pub enum FieldValueModel {
    Text(Seq<char>),
    Int(int),
    Boolean(bool),
    Opaque,
}

impl View for FieldValue {
    type V = FieldValueModel;

    open spec fn view(&self) -> FieldValueModel {
        match self {
            FieldValue::Text(s) => FieldValueModel::Text(s@),
            FieldValue::Int(i) => FieldValueModel::Int(*i as int),
            FieldValue::Boolean(b) => FieldValueModel::Boolean(*b),
            FieldValue::Opaque => FieldValueModel::Opaque,
        }
    }
}

/// One named field recorded on a span at creation.
pub struct Field {
    pub name: String,
    pub value: FieldValue,
}

/// The mathematical model of a [`Field`].
pub struct FieldModel {
    pub name: Seq<char>,
    pub value: FieldValueModel,
}

impl View for Field {
    type V = FieldModel;

    open spec fn view(&self) -> FieldModel {
        FieldModel { name: self.name@, value: self.value@ }
    }
}

/// The fields of one span, in recording order.
pub struct FieldSet {
    fields: Vec<Field>,
}

impl View for FieldSet {
    type V = Seq<FieldModel>;

    closed spec fn view(&self) -> Seq<FieldModel> {
        self.fields@.map_values(|f: Field| f@)
    }
}

/// Whether field `f` is named `name` and holds exactly the text `value`.
pub open spec fn field_matches(f: FieldModel, name: Seq<char>, value: Seq<char>) -> bool {
    f.name == name && f.value == FieldValueModel::Text(value)
}

/// Whether some field in `fields` is named `name` and holds exactly the
/// text `value`.
pub open spec fn has_text_field(fields: Seq<FieldModel>, name: Seq<char>, value: Seq<char>) -> bool {
    exists|i: int| 0 <= i < fields.len() && field_matches(fields[i], name, value)
}

/// Character-wise string equality, decided over the views.
pub fn str_eq(a: &str, b: &str) -> (r: bool)
    ensures
        r == (a@ == b@),
{
    let an = a.unicode_len();
    let bn = b.unicode_len();
    if an != bn {
        return false;
    }
    let mut i: usize = 0;
    while i < an
        invariant
            i <= an,
            an == a@.len(),
            bn == b@.len(),
            an == bn,
            forall|j: int| 0 <= j < i ==> a@[j] == b@[j],
        decreases an - i,
    {
        if a.get_char(i) != b.get_char(i) {
            return false;
        }
        i += 1;
    }
    proof {
        assert(a@ =~= b@);
    }
    true
}

impl FieldSet {
    /// A field set holding no fields.
    pub fn new() -> (r: FieldSet)
        ensures
            r@ =~= Seq::<FieldModel>::empty(),
    {
        FieldSet { fields: Vec::new() }
    }

    /// Records one more field, after all fields recorded so far.
    pub fn push_field(&mut self, name: String, value: FieldValue)
        ensures
            final(self)@ =~= old(self)@.push(FieldModel { name: name@, value: value@ }),
    {
        let ghost before = self.fields@;
        self.fields.push(Field { name, value });
        proof {
            assert(self.fields@ =~= before.push(self.fields@.last()));
        }
    }
}

/// Whether `valueset` contains a field named `field` whose value is
/// string-typed and equal, character for character, to `value`.
pub fn value_in_valueset(valueset: &FieldSet, field: &str, value: &str) -> (r: bool)
    ensures
        r == has_text_field(valueset@, field@, value@),
{
    let n = valueset.fields.len();
    let mut i: usize = 0;
    while i < n
        invariant
            i <= n,
            n == valueset.fields@.len(),
            forall|j: int| 0 <= j < i ==> !field_matches(valueset@[j], field@, value@),
        decreases n - i,
    {
        let f = &valueset.fields[i];
        match &f.value {
            FieldValue::Text(s) => {
                if str_eq(f.name.as_str(), field) && str_eq(s.as_str(), value) {
                    proof {
                        assert(field_matches(valueset@[i as int], field@, value@));
                    }
                    return true;
                }
            }
            _ => {}
        }
        i += 1;
    }
    false
}

} // verus!

use span_filter::engine::SpanRegistry;
use span_filter::fields::{FieldSet, FieldValue};
use span_filter::protocol::handle_line;
use span_filter::store::FilterStore;

fn fields_with(name: &str, value: FieldValue) -> FieldSet {
    let mut f = FieldSet::new();
    f.push_field(name.to_string(), value);
    f
}

#[test]
fn empty_filterset_admits_root_span() {
    let store = FilterStore::new();
    let mut reg = SpanRegistry::new();
    let fields = fields_with("vrf_id", FieldValue::Text("1".to_string()));
    let a = reg.create_span(None, &fields, &store.current());
    assert!(!reg.is_suppressed(a));
    assert!(reg.is_emission_allowed(Some(a)));
}

#[test]
fn vrf_rule_suppresses_matching_root_span() {
    let mut store = FilterStore::new();
    assert!(handle_line(&mut store, "VRF 1"));
    let mut reg = SpanRegistry::new();
    let fields = fields_with("vrf_id", FieldValue::Text("1".to_string()));
    let b = reg.create_span(None, &fields, &store.current());
    assert!(reg.is_suppressed(b));
    assert!(!reg.is_emission_allowed(Some(b)));
}

#[test]
fn child_of_suppressed_span_is_suppressed() {
    let mut store = FilterStore::new();
    assert!(handle_line(&mut store, "VRF 1"));
    let mut reg = SpanRegistry::new();
    let fields = fields_with("vrf_id", FieldValue::Text("1".to_string()));
    let b = reg.create_span(None, &fields, &store.current());
    assert!(reg.is_suppressed(b));
    // The child has no matching fields of its own; it inherits the flag.
    let child_fields = FieldSet::new();
    let c = reg.create_span(Some(b), &child_fields, &store.current());
    assert!(reg.is_suppressed(c));
    assert!(!reg.is_emission_allowed(Some(c)));
}

#[test]
fn clear_admits_new_root_span() {
    let mut store = FilterStore::new();
    assert!(handle_line(&mut store, "VRF 1"));
    assert!(handle_line(&mut store, "CLEAR"));
    let mut reg = SpanRegistry::new();
    let fields = fields_with("vrf_id", FieldValue::Text("1".to_string()));
    let d = reg.create_span(None, &fields, &store.current());
    assert!(!reg.is_suppressed(d));
    assert!(reg.is_emission_allowed(Some(d)));
}

#[test]
fn non_string_field_never_matches() {
    let mut store = FilterStore::new();
    assert!(handle_line(&mut store, "VRF 7"));
    let mut reg = SpanRegistry::new();
    // The field is named vrf_id but holds the number 7, not the text "7".
    let fields = fields_with("vrf_id", FieldValue::Int(7));
    let e = reg.create_span(None, &fields, &store.current());
    assert!(!reg.is_suppressed(e));
    assert!(reg.is_emission_allowed(Some(e)));
}

#[test]
fn emission_allowed_without_active_span() {
    let reg = SpanRegistry::new();
    assert!(reg.is_emission_allowed(None));
}

#[test]
fn later_rule_change_does_not_touch_created_spans() {
    let mut store = FilterStore::new();
    let mut reg = SpanRegistry::new();
    let fields = fields_with("vrf_id", FieldValue::Text("1".to_string()));
    let a = reg.create_span(None, &fields, &store.current());
    assert!(!reg.is_suppressed(a));
    // A rule arriving after creation does not retroactively suppress a.
    assert!(handle_line(&mut store, "VRF 1"));
    assert!(!reg.is_suppressed(a));
    // A span created under the new snapshot is suppressed.
    let b = reg.create_span(None, &fields, &store.current());
    assert!(reg.is_suppressed(b));
    // Clearing afterwards does not un-suppress b.
    assert!(handle_line(&mut store, "CLEAR"));
    assert!(reg.is_suppressed(b));
}

#[test]
fn grandchild_inherits_through_chain() {
    let mut store = FilterStore::new();
    assert!(handle_line(&mut store, "VRF 9"));
    let mut reg = SpanRegistry::new();
    let root = reg.create_span(
        None,
        &fields_with("vrf_id", FieldValue::Text("9".to_string())),
        &store.current(),
    );
    let child = reg.create_span(Some(root), &FieldSet::new(), &store.current());
    let grandchild = reg.create_span(Some(child), &FieldSet::new(), &store.current());
    assert!(reg.is_suppressed(root));
    assert!(reg.is_suppressed(child));
    assert!(reg.is_suppressed(grandchild));
}

#[test]
fn unsuppressed_parent_child_matches_own_fields() {
    let mut store = FilterStore::new();
    assert!(handle_line(&mut store, "VRF 5"));
    let mut reg = SpanRegistry::new();
    let root = reg.create_span(None, &FieldSet::new(), &store.current());
    assert!(!reg.is_suppressed(root));
    // The child of a live parent is judged by its own fields.
    let child = reg.create_span(
        Some(root),
        &fields_with("vrf_id", FieldValue::Text("5".to_string())),
        &store.current(),
    );
    assert!(reg.is_suppressed(child));
}

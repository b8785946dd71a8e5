use span_filter::protocol::{
    handle_line, handle_read, parse_command, ConnState, ControlCommand,
};
use span_filter::store::FilterStore;

#[test]
fn parse_clear() {
    assert!(matches!(parse_command("CLEAR"), Some(ControlCommand::Clear)));
}

#[test]
fn parse_clear_with_surrounding_whitespace() {
    assert!(matches!(parse_command("  \tCLEAR\r\n"), Some(ControlCommand::Clear)));
}

#[test]
fn parse_dispatches_one_command_per_read() {
    // Only the first token selects the command; the rest of the read is
    // not interpreted further.
    assert!(matches!(parse_command("CLEAR VRF 1"), Some(ControlCommand::Clear)));
}

#[test]
fn parse_vrf_sets_vrf_id_rule() {
    match parse_command("VRF 42") {
        Some(ControlCommand::SetRule { field, value }) => {
            assert_eq!(field, "vrf_id");
            assert_eq!(value, "42");
        }
        _ => panic!("expected a rule for vrf_id"),
    }
}

#[test]
fn parse_vrf_across_lines() {
    match parse_command("VRF\n7\n") {
        Some(ControlCommand::SetRule { field, value }) => {
            assert_eq!(field, "vrf_id");
            assert_eq!(value, "7");
        }
        _ => panic!("expected a rule for vrf_id"),
    }
}

#[test]
fn parse_vrf_without_value_is_ignored() {
    assert!(parse_command("VRF").is_none());
    assert!(parse_command("VRF   \n").is_none());
}

#[test]
fn parse_blank_input_is_ignored() {
    assert!(parse_command("").is_none());
    assert!(parse_command("   \t\r\n").is_none());
}

#[test]
fn parse_unknown_command_is_ignored() {
    assert!(parse_command("RESET").is_none());
    assert!(parse_command("vrf 1").is_none());
    assert!(parse_command("CLEARX").is_none());
}

#[test]
fn handle_line_applies_recognized_commands() {
    let mut store = FilterStore::new();
    assert!(handle_line(&mut store, "VRF 3"));
    let snap = store.current();
    assert_eq!(snap.rule_value("vrf_id").as_deref(), Some("3"));
}

#[test]
fn handle_line_ignores_malformed_input() {
    let mut store = FilterStore::new();
    assert!(handle_line(&mut store, "VRF 3"));
    assert!(!handle_line(&mut store, "NOISE 9"));
    assert!(!handle_line(&mut store, ""));
    // The snapshot is untouched by the ignored input.
    let snap = store.current();
    assert_eq!(snap.rule_value("vrf_id").as_deref(), Some("3"));
}

#[test]
fn clear_twice_leaves_empty_both_times() {
    let mut store = FilterStore::new();
    assert!(handle_line(&mut store, "VRF 1"));
    assert!(!store.current().is_empty());
    assert!(handle_line(&mut store, "CLEAR"));
    assert!(store.current().is_empty());
    assert!(handle_line(&mut store, "CLEAR"));
    assert!(store.current().is_empty());
}

#[test]
fn set_rule_overwrites_same_field() {
    let mut store = FilterStore::new();
    assert!(handle_line(&mut store, "VRF 1"));
    assert!(handle_line(&mut store, "VRF 2"));
    let snap = store.current();
    assert_eq!(snap.rule_value("vrf_id").as_deref(), Some("2"));
}

#[test]
fn connection_keeps_reading_on_success() {
    let mut store = FilterStore::new();
    let s1 = handle_read(&mut store, ConnState::Reading, Some("VRF 4"));
    assert_eq!(s1, ConnState::Reading);
    assert_eq!(store.current().rule_value("vrf_id").as_deref(), Some("4"));
    // Unrecognized input also keeps the connection open.
    let s2 = handle_read(&mut store, s1, Some("GARBAGE"));
    assert_eq!(s2, ConnState::Reading);
}

#[test]
fn connection_closes_on_read_error() {
    let mut store = FilterStore::new();
    let s1 = handle_read(&mut store, ConnState::Reading, None);
    assert_eq!(s1, ConnState::Closed);
    // A closed connection stays closed and dispatches nothing.
    let s2 = handle_read(&mut store, s1, Some("VRF 4"));
    assert_eq!(s2, ConnState::Closed);
    assert!(store.current().is_empty());
}

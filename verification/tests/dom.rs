use frontier::js::dom::{
    applies_through_bridge, format_handle, normalize_event_name, optional_handle, parse_handle,
    DomPatch, DomState,
};

#[test]
fn handles_round_trip() {
    for id in [0usize, 7, 42, 1_000_000, usize::MAX] {
        assert_eq!(parse_handle(&format_handle(id)).unwrap(), id);
    }
    assert_eq!(optional_handle(Some(5)), Some("5".to_string()));
    assert_eq!(optional_handle(None), None);
    assert_eq!(parse_handle("+12").unwrap(), 12);
}

#[test]
fn bad_handles_say_why() {
    assert_eq!(
        parse_handle("").unwrap_err(),
        "invalid handle '': cannot parse integer from empty string"
    );
    assert_eq!(
        parse_handle("12a").unwrap_err(),
        "invalid handle '12a': invalid digit found in string"
    );
    assert_eq!(
        parse_handle("+").unwrap_err(),
        "invalid handle '+': invalid digit found in string"
    );
    assert_eq!(
        parse_handle("-1").unwrap_err(),
        "invalid handle '-1': invalid digit found in string"
    );
    assert_eq!(
        parse_handle("99999999999999999999999").unwrap_err(),
        "invalid handle '99999999999999999999999': number too large to fit in target type"
    );
    let std_err = "12a".parse::<usize>().unwrap_err().to_string();
    assert_eq!(std_err, "invalid digit found in string");
}

#[test]
fn event_names_are_normalized() {
    assert_eq!(normalize_event_name(" onClick "), "click");
    assert_eq!(normalize_event_name("KEYDOWN"), "keydown");
    assert_eq!(normalize_event_name("ONCLICK"), "onclick");
}

#[test]
fn listeners_are_counted() {
    let mut state = DomState::new("<p></p>");
    assert!(!state.is_listening("click"));
    state.listen("onclick");
    state.listen("CLICK");
    assert!(state.is_listening("click"));
    state.unlisten("click");
    assert!(state.is_listening("onClick"));
    state.unlisten("click");
    assert!(!state.is_listening("click"));
    state.unlisten("click");
    assert!(!state.is_listening("click"));
    assert_eq!(state.initial_html(), "<p></p>");
}

#[test]
fn mutations_are_drained_in_order() {
    let mut state = DomState::new("");
    let a = DomPatch::TextContent { handle: "1".into(), value: "x".into() };
    let b = DomPatch::AppendChild { parent: "1".into(), child: "2".into() };
    assert!(applies_through_bridge(&a));
    assert!(!applies_through_bridge(&b));
    state.record_mutation(a.clone());
    state.record_mutation(b.clone());
    assert_eq!(state.drain_mutations(), vec![a, b]);
    assert!(state.drain_mutations().is_empty());
    assert_eq!(state.handle_to_string(9), "9");
}

#[test]
fn listener_counts_follow_the_calls() {
    let mut s = DomState::new("");
    s.unlisten("click");
    s.listen("onClick");
    s.listen(" click ");
    s.unlisten("CLICK");
    assert!(s.is_listening("click"));
    s.unlisten("click");
    assert!(!s.is_listening("click"));
    s.unlisten("click");
    s.listen("click");
    assert!(s.is_listening("onclick"));
    assert!(!s.is_listening("keydown"));
}

use frontier::webdriver::{SessionTable, SessionTarget, SessionWork, WebDriverCommand};

#[test]
fn sessions_track_their_elements() {
    let mut table = SessionTable::new();
    let id: u128 = 0x1234;

    match table.begin(WebDriverCommand::CreateSession(SessionTarget::File("index.html".into()))) {
        Ok(SessionWork::Open(SessionTarget::File(path))) => assert_eq!(path, "index.html"),
        other => panic!("unexpected {other:?}"),
    }
    table.opened(id);
    assert!(table.contains(id));

    match table.begin(WebDriverCommand::FindElement { session_id: id, selector: "#go".into() }) {
        Ok(SessionWork::EnsureSelector { session_id, selector }) => {
            assert_eq!(session_id, id);
            assert_eq!(selector, "#go");
        }
        other => panic!("unexpected {other:?}"),
    }
    table.found(id, "e1".into(), "#go".into()).unwrap();

    match table.begin(WebDriverCommand::ClickElement { session_id: id, element: "e1".into() }) {
        Ok(SessionWork::Click { session_id, selector }) => {
            assert_eq!(session_id, id);
            assert_eq!(selector, "#go");
        }
        other => panic!("unexpected {other:?}"),
    }
    match table.begin(WebDriverCommand::ElementText { session_id: id, element: "e2".into() }) {
        Err(message) => assert_eq!(message, "unknown element"),
        other => panic!("unexpected {other:?}"),
    }

    // A navigation forgets the elements.
    match table.begin(WebDriverCommand::Navigate {
        session_id: id,
        target: SessionTarget::Url("https://example.com/".into()),
    }) {
        Ok(SessionWork::Navigate { session_id, target }) => {
            assert_eq!(session_id, id);
            assert_eq!(target, SessionTarget::Url("https://example.com/".into()));
        }
        other => panic!("unexpected {other:?}"),
    }
    table.navigated(id);
    assert_eq!(table.element_selector(id, "e1").unwrap_err(), "unknown element");

    match table.begin(WebDriverCommand::Pump { session_id: id, milliseconds: 25 }) {
        Ok(SessionWork::Pump { session_id, milliseconds }) => {
            assert_eq!((session_id, milliseconds), (id, 25));
        }
        other => panic!("unexpected {other:?}"),
    }
    assert!(matches!(
        table.begin(WebDriverCommand::GetUrl { session_id: id }),
        Ok(SessionWork::CurrentUrl { session_id }) if session_id == id
    ));
    assert!(matches!(
        table.begin(WebDriverCommand::GetSource { session_id: id }),
        Ok(SessionWork::Source { session_id }) if session_id == id
    ));

    // Closing the session makes it unknown.
    assert!(matches!(
        table.begin(WebDriverCommand::DeleteSession { session_id: id }),
        Ok(SessionWork::Nothing)
    ));
    assert!(!table.contains(id));
    match table.begin(WebDriverCommand::GetSource { session_id: id }) {
        Err(message) => assert_eq!(message, "unknown session"),
        other => panic!("unexpected {other:?}"),
    }
    assert_eq!(table.found(id, "e3".into(), "p".into()).unwrap_err(), "unknown session");
    assert_eq!(table.element_selector(id, "e1").unwrap_err(), "unknown session");
}

#[test]
fn sessions_are_independent() {
    let mut table = SessionTable::new();
    table.opened(1);
    table.opened(2);
    table.found(1, "a".into(), "#one".into()).unwrap();
    table.found(2, "a".into(), "#two".into()).unwrap();
    table.navigated(2);
    assert_eq!(table.element_selector(1, "a").unwrap(), "#one");
    assert_eq!(table.element_selector(2, "a").unwrap_err(), "unknown element");
    // Reopening an id starts it afresh.
    table.opened(1);
    assert_eq!(table.element_selector(1, "a").unwrap_err(), "unknown element");
    // Closing an unknown session is harmless.
    assert!(matches!(
        table.begin(WebDriverCommand::DeleteSession { session_id: 99 }),
        Ok(SessionWork::Nothing)
    ));
    assert!(table.contains(1) && table.contains(2));
}

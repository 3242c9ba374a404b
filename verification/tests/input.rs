use frontier::input::{parse_input, ParseInputError, ParsedInput};

#[test]
fn parses_url() {
    let parsed = parse_input("https://example.com").unwrap();
    match parsed {
        ParsedInput::Url(url) => assert_eq!(url.as_str(), "https://example.com/"),
        _ => panic!("expected URL"),
    }
}

#[test]
fn parses_direct_ip() {
    let parsed = parse_input("127.0.0.1:8080").unwrap();
    match parsed {
        ParsedInput::DirectIp(url) => {
            assert_eq!(url.as_str(), "http://127.0.0.1:8080/")
        }
        _ => panic!("expected direct IP"),
    }
}

#[test]
fn rejects_invalid() {
    assert!(parse_input("???").is_err());
}

#[test]
fn rejects_bare_names() {
    assert!(parse_input("justinmoon").is_err());
}

#[test]
fn host_names_get_https() {
    match parse_input("  example.com/path  ").unwrap() {
        ParsedInput::Url(url) => assert_eq!(url.as_str(), "https://example.com/path"),
        _ => panic!("expected URL"),
    }
}

#[test]
fn empty_input_is_refused() {
    assert_eq!(parse_input("   ").unwrap_err(), ParseInputError::Empty);
    assert_eq!(ParseInputError::Empty.message(), "input is empty");
    assert_eq!(parse_input("justinmoon").unwrap_err(), ParseInputError::InvalidUrl);
    assert_eq!(
        ParseInputError::InvalidUrl.message(),
        "input could not be parsed as a URL"
    );
}

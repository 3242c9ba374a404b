use frontier::net::relay_directory::{RelayDirectory, RelayDirectoryError};

#[test]
fn loads_default() {
    let directory = RelayDirectory::load(None).unwrap();
    assert!(!directory.relays().is_empty());
}

fn relays_from_yaml(text: &str) -> Vec<String> {
    let value: serde_yaml::Value = serde_yaml::from_str(text).unwrap();
    value
        .get("relays")
        .and_then(|v| v.as_sequence())
        .unwrap()
        .iter()
        .map(|v| v.as_str().unwrap().to_string())
        .collect()
}

#[test]
fn loads_from_file() {
    let relays = relays_from_yaml("relays:\n  - wss://relay.example\n  - wss://relay.other");
    let directory = RelayDirectory::load(Some(relays)).unwrap();
    assert_eq!(directory.relays().len(), 2);
    assert!(directory.relays()[0]
        .as_str()
        .starts_with("wss://relay.example"));
}

#[test]
fn default_relays_are_damus_and_nos() {
    let directory = RelayDirectory::load(None).unwrap();
    let relays: Vec<&str> = directory.relays().iter().map(|u| u.as_str()).collect();
    assert_eq!(relays, vec!["wss://relay.damus.io/", "wss://nos.lol/"]);
}

#[test]
fn a_bad_relay_address_is_refused() {
    let result = RelayDirectory::load(Some(vec![
        "wss://relay.example".to_string(),
        "not a url".to_string(),
    ]));
    assert!(matches!(result, Err(RelayDirectoryError::InvalidUrl(_))));
}

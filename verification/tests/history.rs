use frontier::history::{navigation_target, BrowserHistory};

#[test]
fn back_and_forward_move_between_pages() {
    let mut h = BrowserHistory::new("a".to_string());
    assert_eq!(h.visit("b".to_string()), "b");
    h.visit("c".to_string());
    assert_eq!(h.go_back(), Some("b".to_string()));
    assert_eq!(h.current(), "b");
    assert_eq!(h.go_back(), Some("a".to_string()));
    assert_eq!(h.go_back(), None);
    assert_eq!(h.current(), "a");
    assert_eq!(h.go_forward(), Some("b".to_string()));
    assert_eq!(h.go_forward(), Some("c".to_string()));
    assert_eq!(h.go_forward(), None);
}

#[test]
fn a_visit_clears_the_forward_pages() {
    let mut h = BrowserHistory::new("a".to_string());
    h.visit("b".to_string());
    h.go_back();
    h.visit("d".to_string());
    assert_eq!(h.go_forward(), None);
    assert_eq!(h.go_back(), Some("a".to_string()));
}

#[test]
fn visiting_the_same_page_changes_nothing() {
    let mut h = BrowserHistory::new("a".to_string());
    h.visit("a".to_string());
    assert_eq!(h.go_back(), None);
}

#[test]
fn requests_follow_the_address_bar_form() {
    let mut h = BrowserHistory::new("a".to_string());
    let loaded = h.request(
        "https://x.example/?url=https%3A%2F%2Fexample.org%2F",
        Some("url=https%3A%2F%2Fexample.org%2F"),
    );
    assert_eq!(loaded, Some("https://example.org/".to_string()));
    assert_eq!(h.request("frontier://back", None), Some("a".to_string()));
    assert_eq!(h.request("frontier://forward", None), Some("https://example.org/".to_string()));
    assert_eq!(navigation_target("https://plain.example/", None), "https://plain.example/");
}

#[test]
fn the_first_url_pair_is_the_target() {
    assert_eq!(
        navigation_target("frontier://go?url=a%20b", Some("x=1&url=a%20b&url=c")),
        "a b"
    );
    assert_eq!(
        navigation_target("frontier://go?url=", Some("url=")),
        ""
    );
    assert_eq!(
        navigation_target("frontier://go?url=x", Some("other=1")),
        "frontier://go?url=x"
    );
}

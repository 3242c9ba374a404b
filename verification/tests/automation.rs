use frontier::automation::{automation_base_url, automation_request_url, banner_step, BannerStep};
use frontier::automation::{element_not_found, id_selector_target, pump_rounds};
use frontier::automation::{
    default_artifact_root, default_asset_root, encode_selector_query,
    fallback_automation_host_path, join_path_str, parse_ready_banner, session_path,
    AutomationArtifacts, AutomationHostConfig, ElementSelector, HeadlessSessionBuilder,
    WaitOptions, SESSION_ID,
};

#[test]
fn selectors_are_built() {
    assert_eq!(
        ElementSelector::css("#go"),
        ElementSelector::Css { selector: "#go".into() }
    );
    assert_eq!(
        ElementSelector::role("button", Some("Go".into())),
        ElementSelector::Role { role: "button".into(), name: Some("Go".into()) }
    );
}

#[test]
fn selectors_become_query_strings() {
    assert_eq!(
        encode_selector_query(&ElementSelector::css("#url input")),
        "kind=css&selector=%23url+input"
    );
    assert_eq!(
        encode_selector_query(&ElementSelector::role("link", None)),
        "kind=role&role=link"
    );
    assert_eq!(
        encode_selector_query(&ElementSelector::role("link", Some("Más".into()))),
        "kind=role&role=link&name=M%C3%A1s"
    );
}

#[test]
fn session_paths_drop_leading_slashes() {
    assert_eq!(session_path(SESSION_ID, "//click"), "/session/frontier/click");
    assert_eq!(session_path("s", "text?kind=css"), "/session/s/text?kind=css");
}

#[test]
fn ready_banner_gives_the_address() {
    assert_eq!(
        parse_ready_banner("  AUTOMATION_HOST_READY 127.0.0.1:4444\n"),
        Some("127.0.0.1:4444".to_string())
    );
    assert_eq!(parse_ready_banner("starting up"), None);
}

#[test]
fn host_settings_fill_in_defaults() {
    let config = AutomationHostConfig::default();
    assert_eq!(
        config.launch_settings("/src/frontier"),
        (
            "127.0.0.1:0".to_string(),
            "about:blank".to_string(),
            "/src/frontier/assets".to_string(),
            "/src/frontier/target/automation-artifacts".to_string(),
        )
    );
    let config = AutomationHostConfig::default()
        .with_initial_target("https://a.example".to_string())
        .with_asset_root("/assets".to_string())
        .with_artifact_root("/out".to_string());
    let settings = config.launch_settings("/src");
    assert_eq!(settings.1, "https://a.example");
    assert_eq!(settings.2, "/assets");
    assert_eq!(settings.3, "/out");
}

#[test]
fn checkout_paths() {
    assert_eq!(default_asset_root("/repo/"), "/repo/assets");
    assert_eq!(default_artifact_root("/repo"), "/repo/target/automation-artifacts");
    assert_eq!(
        fallback_automation_host_path("/repo", false),
        "/repo/target/debug/automation_host"
    );
    assert_eq!(
        fallback_automation_host_path("/repo", true),
        "/repo/target/debug/automation_host.exe"
    );
    assert_eq!(join_path_str("/a", "/b"), "/b");
    assert_eq!(join_path_str("", "b"), "b");
    let builder = HeadlessSessionBuilder::new("/base").with_base_dir("/other".to_string());
    assert_eq!(builder.file_path("page.html"), "/other/page.html");
}

#[test]
fn wait_defaults() {
    let w = WaitOptions::default_text_wait();
    assert_eq!((w.timeout_ms, w.poll_interval_ms), (5000, 200));
    assert_eq!(WaitOptions::new(1, 2), WaitOptions { timeout_ms: 1, poll_interval_ms: 2 });
    assert_eq!(AutomationArtifacts::default().dom_html, None);
}

#[test]
fn headless_sessions_find_elements_by_id() {
    assert_eq!(id_selector_target("#submit").unwrap(), "submit");
    assert_eq!(id_selector_target("#").unwrap(), "");
    assert_eq!(
        id_selector_target(".button").unwrap_err(),
        "only id selectors are supported (got .button)"
    );
    assert_eq!(
        id_selector_target("").unwrap_err(),
        "only id selectors are supported (got )"
    );
    assert_eq!(element_not_found("x"), "element id not found: x");
    assert_eq!(pump_rounds(0), 1);
    assert_eq!(pump_rounds(9), 1);
    assert_eq!(pump_rounds(25), 2);
    assert_eq!(pump_rounds(100), 10);
}

#[test]
fn the_host_banner_is_read_line_by_line() {
    assert_eq!(banner_step(None), BannerStep::Exited);
    assert_eq!(
        banner_step(Some("AUTOMATION_HOST_READY 127.0.0.1:4444\n")),
        BannerStep::Ready("127.0.0.1:4444".to_string())
    );
    assert_eq!(banner_step(Some("  compiling  \n")), BannerStep::Forward("compiling".to_string()));
    assert_eq!(banner_step(Some("\n")), BannerStep::Skip);
    let base = automation_base_url("127.0.0.1:4444").unwrap();
    assert_eq!(base.href, "http://127.0.0.1:4444/");
    assert_eq!(
        automation_request_url(&base, "/session/frontier/click").unwrap().href,
        "http://127.0.0.1:4444/session/frontier/click"
    );
    assert!(automation_base_url("bad host:port").is_err());
}

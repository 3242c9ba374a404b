use frontier::js::script::{ScriptDescriptor, ScriptExecution, ScriptKind, ScriptSource};
use frontier::navigation::{
    document_from_file, document_from_response, hydration_targets, inline_fetched_script,
    prepare_navigation, resolve_script_url, FetchError, FetchSource, NavigationError,
    NavigationPlan,
};
use frontier::input::ParseInputError;
use frontier::weburl::UrlParseError;

#[test]
fn navigation_plans_show_the_trimmed_input() {
    match prepare_navigation("  example.com ").unwrap() {
        NavigationPlan::Fetch(req) => {
            assert_eq!(req.display_url, "example.com");
            match req.source {
                FetchSource::Url(u) => assert_eq!(u.as_str(), "https://example.com/"),
            }
        }
    }
    let err = prepare_navigation("").unwrap_err();
    assert_eq!(err, NavigationError::Parse(ParseInputError::Empty));
    assert_eq!(err.message(), "failed to parse input: input is empty");
}

#[test]
fn responses_must_be_utf8() {
    let doc = document_from_response(
        "https://a.example/".to_string(),
        b"<script>go()</script>".to_vec(),
        "a.example",
    )
    .unwrap();
    assert_eq!(doc.scripts.len(), 1);
    assert_eq!(doc.display_url, "a.example");
    let err = document_from_response("x".to_string(), vec![0xff, 0xfe], "x").unwrap_err();
    match &err {
        FetchError::Utf8(m) => assert!(m.contains("invalid utf-8")),
        _ => panic!("expected a UTF-8 error"),
    }
    assert!(err.message().starts_with("utf-8 error: "));
    let file = document_from_file("file:///tmp/a.html", "<p></p>".into(), "/tmp/a.html".into(), "a");
    assert_eq!(file.file_path, Some("/tmp/a.html".to_string()));
    assert!(file.scripts.is_empty());
}

#[test]
fn relative_script_addresses_need_a_base() {
    assert_eq!(
        resolve_script_url("x.js", None).unwrap_err(),
        UrlParseError::RelativeUrlWithoutBase
    );
    assert_eq!(
        resolve_script_url("x.js", Some("https://a.example/p/")).unwrap().as_str(),
        "https://a.example/p/x.js"
    );
}

fn external(index: usize, src: &str, execution: ScriptExecution) -> ScriptDescriptor {
    ScriptDescriptor {
        index,
        kind: ScriptKind::Classic,
        execution,
        source: ScriptSource::External { src: src.to_string() },
    }
}

#[test]
fn blocking_external_scripts_are_fetched_and_inlined() {
    let mut doc = document_from_response("https://a.example/".into(), Vec::new(), "a").unwrap();
    doc.scripts = vec![
        external(0, "one.js", ScriptExecution::Blocking),
        external(1, "two.js", ScriptExecution::Defer),
        ScriptDescriptor::inline(2, "x".into(), ScriptKind::Classic),
        external(3, "https://cdn.example/three.js", ScriptExecution::Blocking),
    ];
    let targets = hydration_targets(&doc);
    assert_eq!(targets.len(), 2);
    assert_eq!(targets[0].position, 0);
    assert_eq!(targets[0].url.as_str(), "https://a.example/one.js");
    assert_eq!(targets[1].position, 3);
    inline_fetched_script(&mut doc, 0, "code()".into());
    assert_eq!(doc.scripts[0].source, ScriptSource::Inline { code: "code()".into() });
    assert_eq!(doc.scripts[0].index, 0);
    assert_eq!(doc.scripts[1], external(1, "two.js", ScriptExecution::Defer));
}

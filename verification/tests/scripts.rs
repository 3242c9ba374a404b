use frontier::js::processor::{
    ScriptExecutionSummary, classify_kind, collect_scripts, determine_execution, filter_inline_classic, inline_script_name,
};
use frontier::js::script::{ScriptDescriptor, ScriptExecution, ScriptKind, ScriptSource};
use frontier::js::session::{
    blocking_classic_scripts, blocking_run_summary, decode_data_url, PageScripts, loader_for_scheme, resolve_script_src,
    ScriptLoader, ScriptLocation,
};

#[test]
fn script_types_are_classified() {
    assert_eq!(classify_kind(None), ScriptKind::Classic);
    assert_eq!(classify_kind(Some(" Text/JavaScript ")), ScriptKind::Classic);
    assert_eq!(classify_kind(Some("")), ScriptKind::Classic);
    assert_eq!(classify_kind(Some("application/ecmascript")), ScriptKind::Classic);
    assert_eq!(classify_kind(Some("MODULE")), ScriptKind::Module);
    assert_eq!(classify_kind(Some("text/plain")), ScriptKind::Unknown);
}

#[test]
fn scheduling_follows_the_attributes() {
    assert_eq!(determine_execution(true, true, ScriptKind::Classic), ScriptExecution::Async);
    assert_eq!(determine_execution(false, true, ScriptKind::Classic), ScriptExecution::Defer);
    assert_eq!(determine_execution(false, false, ScriptKind::Module), ScriptExecution::Defer);
    assert_eq!(determine_execution(false, false, ScriptKind::Classic), ScriptExecution::Blocking);
}

#[test]
fn scripts_are_collected_in_document_order() {
    let html = r#"<html><head>
        <script src=" app.js " defer></script>
        <script>   </script>
        <script type="module">import x from "y";</script>
        <script async>console.log(1)</script>
    </head><body></body></html>"#;
    let scripts = collect_scripts(html).unwrap();
    assert_eq!(scripts.len(), 3);
    assert_eq!(scripts[0].index, 0);
    assert_eq!(scripts[0].execution, ScriptExecution::Defer);
    assert_eq!(scripts[0].source, ScriptSource::External { src: "app.js".into() });
    assert_eq!(scripts[1].index, 2);
    assert_eq!(scripts[1].kind, ScriptKind::Module);
    assert_eq!(scripts[1].execution, ScriptExecution::Blocking);
    assert_eq!(scripts[2].index, 3);
    assert_eq!(scripts[2].execution, ScriptExecution::Blocking);
    assert_eq!(
        scripts[2].source,
        ScriptSource::Inline { code: "console.log(1)".into() }
    );
    let inline = filter_inline_classic(&scripts);
    assert_eq!(inline.len(), 2);
    assert_eq!(blocking_classic_scripts(&scripts).len(), 1);
    assert_eq!(inline_script_name(12), "inline-script-12.js");
}

#[test]
fn inline_descriptors_block() {
    let d = ScriptDescriptor::inline(4, "x()".into(), ScriptKind::Module);
    assert_eq!(d.execution, ScriptExecution::Blocking);
    assert_eq!(d.index, 4);
}

#[test]
fn data_urls_are_decoded() {
    assert_eq!(
        decode_data_url("data:text/javascript;base64,YWxl\ncnQoMSk=").unwrap(),
        ("alert(1)".to_string(), "data:text/javascript".to_string())
    );
    assert_eq!(
        decode_data_url("data:,var%20x%3D1").unwrap(),
        ("var x=1".to_string(), "data:application/javascript".to_string())
    );
    assert_eq!(
        decode_data_url("data:;base64;base64,eA==").unwrap(),
        ("x".to_string(), "data:application/javascript".to_string())
    );
    assert_eq!(
        decode_data_url("http://x").unwrap_err(),
        "invalid data URL: http://x"
    );
    assert_eq!(
        decode_data_url("data:text/plain").unwrap_err(),
        "data URL missing payload: data:text/plain"
    );
    assert_eq!(
        decode_data_url("data:;base64,!!").unwrap_err(),
        "decoding base64 data URL data:;base64,!!"
    );
    assert_eq!(
        decode_data_url("data:;base64,/w==").unwrap_err(),
        "data URL payload is not UTF-8: data:;base64,/w=="
    );
    assert_eq!(
        decode_data_url("data:,%FF").unwrap_err(),
        "percent-decoding data URL data:,%FF"
    );
}

#[test]
fn loaders_follow_the_scheme() {
    assert_eq!(loader_for_scheme("file").unwrap(), ScriptLoader::File);
    assert_eq!(loader_for_scheme("https").unwrap(), ScriptLoader::Http);
    assert_eq!(loader_for_scheme("data").unwrap(), ScriptLoader::Data);
    assert_eq!(loader_for_scheme("ftp").unwrap_err(), "unsupported script scheme: ftp");
}

#[test]
fn script_sources_are_resolved() {
    match resolve_script_src("app.js", Some("https://a.example/dir/page.html")).unwrap() {
        ScriptLocation::Url(u) => assert_eq!(u.as_str(), "https://a.example/dir/app.js"),
        _ => panic!("expected a URL"),
    }
    assert_eq!(resolve_script_src("app.js", None).unwrap(), ScriptLocation::FilePath);
    assert_eq!(
        resolve_script_src("  ", None).unwrap_err(),
        "script src attribute cannot be empty"
    );
}

#[test]
fn blocking_runs_are_summarized() {
    assert_eq!(blocking_run_summary(&[], 3), None);
    assert_eq!(
        blocking_run_summary(&[true, false, true], 4),
        Some(ScriptExecutionSummary { executed_scripts: 2, dom_mutations: 4 })
    );
    assert_eq!(
        blocking_run_summary(&[false], 0),
        Some(ScriptExecutionSummary { executed_scripts: 0, dom_mutations: 0 })
    );
}

#[test]
fn blocking_scripts_run_once() {
    assert!(PageScripts::new(&[], Some("https://example.com/")).is_none());

    let scripts = vec![
        ScriptDescriptor::inline(0, "a()".into(), ScriptKind::Classic),
        ScriptDescriptor {
            index: 1,
            kind: ScriptKind::Classic,
            execution: ScriptExecution::Defer,
            source: ScriptSource::External { src: "later.js".into() },
        },
        ScriptDescriptor::inline(2, "b()".into(), ScriptKind::Module),
        ScriptDescriptor::inline(3, "c()".into(), ScriptKind::Classic),
    ];
    let mut page = PageScripts::new(&scripts, Some("https://example.com/dir/page.html")).unwrap();
    let run = page.begin_blocking_run().unwrap();
    assert_eq!(run.iter().map(|d| d.index).collect::<Vec<_>>(), vec![0, 3]);
    assert_eq!(
        page.finish_blocking_run(&[true, true], 5),
        Some(ScriptExecutionSummary { executed_scripts: 2, dom_mutations: 5 })
    );
    assert!(page.begin_blocking_run().is_none());

    match page.resolve_script_url("app.js").unwrap() {
        ScriptLocation::Url(u) => assert_eq!(u.href, "https://example.com/dir/app.js"),
        other => panic!("unexpected {other:?}"),
    }
    assert_eq!(
        page.resolve_script_url("  ").unwrap_err(),
        "script src attribute cannot be empty"
    );

    // Without blocking scripts the page counts as run at once.
    let only_module = vec![ScriptDescriptor::inline(0, "m()".into(), ScriptKind::Module)];
    let mut page = PageScripts::new(&only_module, Some("not a url")).unwrap();
    assert!(page.begin_blocking_run().is_none());
    assert!(page.begin_blocking_run().is_none());
    assert_eq!(page.resolve_script_url("x.js").unwrap(), ScriptLocation::FilePath);
}

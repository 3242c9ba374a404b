use frontier::wpt::{
    wrap_harness_for_shell, HarnessOutcome, RawAssert, RawHarnessStatus, RawReport, RawTest,
    WaitStep, WptManifest, WptRun, WptRunner, WptStatus, DEFAULT_TEST_TIMEOUT_MS,
};

fn raw_test(name: &str, status: &str) -> RawTest {
    RawTest { name: name.into(), status: status.into(), message: None, stack: None }
}

#[test]
fn statuses_are_read() {
    assert_eq!(WptStatus::from_raw("PASS"), WptStatus::Pass);
    assert_eq!(WptStatus::from_raw("NOTRUN"), WptStatus::NotRun);
    assert_eq!(WptStatus::from_raw("pass"), WptStatus::Unknown("pass".into()));
    assert!(WptStatus::Pass.is_pass());
    assert!(!WptStatus::Fail.is_pass());
    assert_eq!(HarnessOutcome::from_raw("OK"), HarnessOutcome::Okay);
    assert_eq!(HarnessOutcome::from_raw("X"), HarnessOutcome::Unknown("X".into()));
}

#[test]
fn reports_become_runs() {
    let raw = RawReport {
        done: true,
        tests: vec![raw_test("a", "PASS"), raw_test("b", "FAIL")],
        harness_status: Some(RawHarnessStatus { status: None, message: Some("m".into()), stack: None }),
        asserts: vec![RawAssert {
            name: Some("assert_true".into()),
            status: None,
            stack: None,
            test: Some(raw_test("a", "PASS")),
        }],
    };
    let run = WptRun::from_raw(raw, "t.html").unwrap();
    assert_eq!(run.tests[1].status, WptStatus::Fail);
    let h = run.harness_status.clone().unwrap();
    assert_eq!(h.status, HarnessOutcome::Unknown("UNKNOWN".into()));
    assert_eq!(h.message, Some("m".into()));
    assert_eq!(run.asserts[0].test.clone().unwrap().status, WptStatus::Pass);
    assert!(!run.success());

    let unfinished = RawReport { done: false, tests: Vec::new(), harness_status: None, asserts: Vec::new() };
    assert_eq!(
        WptRun::from_raw(unfinished, "t.html").unwrap_err(),
        "WPT bridge reported incomplete results for t.html"
    );
}

#[test]
fn a_run_succeeds_when_everything_passes() {
    let raw = RawReport {
        done: true,
        tests: vec![raw_test("a", "PASS")],
        harness_status: Some(RawHarnessStatus { status: Some("OK".into()), message: None, stack: None }),
        asserts: Vec::new(),
    };
    assert!(WptRun::from_raw(raw, "x").unwrap().success());
    let empty = RawReport { done: true, tests: Vec::new(), harness_status: None, asserts: Vec::new() };
    assert!(WptRun::from_raw(empty, "x").unwrap().success());
}

#[test]
fn manifests_skip_blank_and_comment_lines() {
    let m = WptManifest::from_contents("# timers\n\n  html/a.html  \r\n#x\nb.html");
    assert_eq!(m.entries(), &["html/a.html".to_string(), "b.html".to_string()]);
    assert!(WptManifest::from_contents("").entries().is_empty());
}

#[test]
fn the_harness_is_wrapped() {
    let w = wrap_harness_for_shell("HARNESS");
    assert!(w.starts_with("(function(){\n  var __frontierHadDocument"));
    assert!(w.contains("\n\nHARNESS\n\n  if (__frontierHadDocument)"));
    assert!(w.ends_with("})();\n"));
}

#[test]
fn the_runner_waits_then_times_out() {
    let runner = WptRunner::from_sources("/wpt".into(), "H", "R".into());
    assert_eq!(runner.timeout_ms(), DEFAULT_TEST_TIMEOUT_MS);
    let runner = runner.with_timeout(100);
    assert_eq!(runner.next_step(true, 1000), WaitStep::Finished);
    assert_eq!(runner.next_step(false, 100), WaitStep::Poll);
    assert_eq!(runner.next_step(false, 101), WaitStep::TimedOut);
    assert_eq!(runner.root(), "/wpt");
    assert_eq!(runner.harness_report_js(), "R");
    assert!(runner.harness_wrapped_js().contains("H"));
}

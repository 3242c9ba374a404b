//! Web Platform Test results: reading the harness report, judging a run, and the
//! manifest of tests to run.
use vstd::prelude::*;

use crate::text::{chars_of, str_equal, string_from_range, trim, trim_string};
use crate::weburl::opt_view;

verus! {

/// How long one test may run, in milliseconds, unless the runner is told otherwise.
pub const DEFAULT_TEST_TIMEOUT_MS: u64 = 5000;

/// How long the runner waits between two looks at the harness, in milliseconds.
pub const POLL_INTERVAL_MS: u64 = 10;

/// The status of one subtest.
#[derive(Debug, Clone, PartialEq, Eq)]
pub enum WptStatus {
    Pass,
    Fail,
    Timeout,
    NotRun,
    PreconditionFailed,
    Unknown(String),
}

/// The status word `raw` names `st`; any other word is kept as `Unknown`.
pub open spec fn status_named(st: WptStatus, raw: Seq<char>) -> bool {
    if raw == "PASS"@ {
        st is Pass
    } else if raw == "FAIL"@ {
        st is Fail
    } else if raw == "TIMEOUT"@ {
        st is Timeout
    } else if raw == "NOTRUN"@ {
        st is NotRun
    } else if raw == "PRECONDITION_FAILED"@ {
        st is PreconditionFailed
    } else {
        st matches WptStatus::Unknown(u) && u@ == raw
    }
}

impl WptStatus {
    /// Reads a status word of the harness.
    pub fn from_raw(value: &str) -> (r: WptStatus)
        ensures
            status_named(r, value@),
    {
        if str_equal(value, "PASS") {
            WptStatus::Pass
        } else if str_equal(value, "FAIL") {
            WptStatus::Fail
        } else if str_equal(value, "TIMEOUT") {
            WptStatus::Timeout
        } else if str_equal(value, "NOTRUN") {
            WptStatus::NotRun
        } else if str_equal(value, "PRECONDITION_FAILED") {
            WptStatus::PreconditionFailed
        } else {
            WptStatus::Unknown(String::from_str(value))
        }
    }

    /// The subtest passed.
    pub fn is_pass(&self) -> (r: bool)
        ensures
            r == (*self is Pass),
    {
        match self {
            WptStatus::Pass => true,
            _ => false,
        }
    }
}

/// The status of the harness as a whole.
#[derive(Debug, Clone, PartialEq, Eq)]
pub enum HarnessOutcome {
    /// The harness word `OK`.
    Okay,
    Error,
    Timeout,
    PreconditionFailed,
    Unknown(String),
}

/// The harness word `raw` names `h`; any other word is kept as `Unknown`.
pub open spec fn outcome_named(h: HarnessOutcome, raw: Seq<char>) -> bool {
    if raw == "OK"@ {
        h is Okay
    } else if raw == "ERROR"@ {
        h is Error
    } else if raw == "TIMEOUT"@ {
        h is Timeout
    } else if raw == "PRECONDITION_FAILED"@ {
        h is PreconditionFailed
    } else {
        h matches HarnessOutcome::Unknown(u) && u@ == raw
    }
}

impl HarnessOutcome {
    /// Reads a harness status word.
    pub fn from_raw(value: &str) -> (r: HarnessOutcome)
        ensures
            outcome_named(r, value@),
    {
        if str_equal(value, "OK") {
            HarnessOutcome::Okay
        } else if str_equal(value, "ERROR") {
            HarnessOutcome::Error
        } else if str_equal(value, "TIMEOUT") {
            HarnessOutcome::Timeout
        } else if str_equal(value, "PRECONDITION_FAILED") {
            HarnessOutcome::PreconditionFailed
        } else {
            HarnessOutcome::Unknown(String::from_str(value))
        }
    }
}

#[derive(Debug, Clone)]
pub struct WptTestResult {
    pub name: String,
    pub status: WptStatus,
    pub message: Option<String>,
    pub stack: Option<String>,
}

#[derive(Debug, Clone)]
pub struct WptHarnessStatus {
    pub status: HarnessOutcome,
    pub message: Option<String>,
    pub stack: Option<String>,
}

#[derive(Debug, Clone)]
pub struct WptAssertTestRef {
    pub name: String,
    pub status: WptStatus,
}

#[derive(Debug, Clone)]
pub struct WptAssertRecord {
    pub name: Option<String>,
    pub status: Option<String>,
    pub stack: Option<String>,
    pub test: Option<WptAssertTestRef>,
}

/// The outcome of one test file.
#[derive(Debug, Clone)]
pub struct WptRun {
    pub tests: Vec<WptTestResult>,
    pub harness_status: Option<WptHarnessStatus>,
    pub asserts: Vec<WptAssertRecord>,
}

/// A run succeeds when the harness (if it reported) is `Okay` and every subtest passed.
pub open spec fn run_succeeded(run: WptRun) -> bool {
    &&& (run.harness_status matches Some(h) ==> h.status is Okay)
    &&& forall|i: int| 0 <= i < run.tests@.len() ==> (#[trigger] run.tests@[i]).status is Pass
}

impl WptRun {
    /// Whether the whole run passed.
    pub fn success(&self) -> (r: bool)
        ensures
            r == run_succeeded(*self),
    {
        let harness_ok = match &self.harness_status {
            Some(h) => match h.status {
                HarnessOutcome::Okay => true,
                _ => false,
            },
            None => true,
        };
        if !harness_ok {
            return false;
        }
        let mut i: usize = 0;
        while i < self.tests.len()
            invariant
                i <= self.tests@.len(),
                forall|k: int| 0 <= k < i ==> (#[trigger] self.tests@[k]).status is Pass,
            decreases self.tests@.len() - i,
        {
            if !self.tests[i].status.is_pass() {
                return false;
            }
            i = i + 1;
        }
        true
    }
}

/// One subtest as the harness bridge reports it.
#[derive(Debug, Clone)]
pub struct RawTest {
    pub name: String,
    pub status: String,
    pub message: Option<String>,
    pub stack: Option<String>,
}

/// The harness status as the bridge reports it.
#[derive(Debug, Clone)]
pub struct RawHarnessStatus {
    pub status: Option<String>,
    pub message: Option<String>,
    pub stack: Option<String>,
}

/// One assertion as the bridge reports it.
#[derive(Debug, Clone)]
pub struct RawAssert {
    pub name: Option<String>,
    pub status: Option<String>,
    pub stack: Option<String>,
    pub test: Option<RawTest>,
}

/// The whole report of the harness bridge.
#[derive(Debug, Clone)]
pub struct RawReport {
    pub done: bool,
    pub tests: Vec<RawTest>,
    pub harness_status: Option<RawHarnessStatus>,
    pub asserts: Vec<RawAssert>,
}

/// `t` is the subtest result that `raw` reports.
pub open spec fn test_from_raw(t: WptTestResult, raw: RawTest) -> bool {
    &&& t.name@ == raw.name@
    &&& status_named(t.status, raw.status@)
    &&& opt_view(t.message) == opt_view(raw.message)
    &&& opt_view(t.stack) == opt_view(raw.stack)
}

/// `h` is the harness status that `raw` reports; a missing word reads as `UNKNOWN`.
pub open spec fn harness_from_raw(h: WptHarnessStatus, raw: RawHarnessStatus) -> bool {
    &&& outcome_named(
        h.status,
        match raw.status {
            Some(s) => s@,
            None => "UNKNOWN"@,
        },
    )
    &&& opt_view(h.message) == opt_view(raw.message)
    &&& opt_view(h.stack) == opt_view(raw.stack)
}

/// `a` is the assertion record that `raw` reports.
pub open spec fn assert_from_raw(a: WptAssertRecord, raw: RawAssert) -> bool {
    &&& opt_view(a.name) == opt_view(raw.name)
    &&& opt_view(a.status) == opt_view(raw.status)
    &&& opt_view(a.stack) == opt_view(raw.stack)
    &&& match raw.test {
        None => a.test is None,
        Some(rt) => a.test matches Some(t) && t.name@ == rt.name@ && status_named(
            t.status,
            rt.status@,
        ),
    }
}

/// `run` is what the complete report `raw` says.
pub open spec fn run_from_raw(run: WptRun, raw: RawReport) -> bool {
    &&& run.tests@.len() == raw.tests@.len()
    &&& forall|i: int|
        0 <= i < raw.tests@.len() ==> test_from_raw(#[trigger] run.tests@[i], raw.tests@[i])
    &&& match raw.harness_status {
        None => run.harness_status is None,
        Some(rh) => run.harness_status matches Some(h) && harness_from_raw(h, rh),
    }
    &&& run.asserts@.len() == raw.asserts@.len()
    &&& forall|i: int|
        0 <= i < raw.asserts@.len() ==> assert_from_raw(#[trigger] run.asserts@[i], raw.asserts@[i])
}

fn clone_opt(o: &Option<String>) -> (r: Option<String>)
    ensures
        opt_view(r) == opt_view(*o),
{
    match o {
        Some(s) => Some(s.clone()),
        None => None,
    }
}

fn convert_test(raw: &RawTest) -> (t: WptTestResult)
    ensures
        test_from_raw(t, *raw),
{
    WptTestResult {
        name: raw.name.clone(),
        status: WptStatus::from_raw(raw.status.as_str()),
        message: clone_opt(&raw.message),
        stack: clone_opt(&raw.stack),
    }
}

fn convert_harness(raw: &RawHarnessStatus) -> (h: WptHarnessStatus)
    ensures
        harness_from_raw(h, *raw),
{
    let status = match &raw.status {
        Some(s) => HarnessOutcome::from_raw(s.as_str()),
        None => HarnessOutcome::from_raw("UNKNOWN"),
    };
    WptHarnessStatus { status, message: clone_opt(&raw.message), stack: clone_opt(&raw.stack) }
}

fn convert_assert(raw: &RawAssert) -> (a: WptAssertRecord)
    ensures
        assert_from_raw(a, *raw),
{
    let test = match &raw.test {
        Some(rt) => Some(
            WptAssertTestRef {
                name: rt.name.clone(),
                status: WptStatus::from_raw(rt.status.as_str()),
            },
        ),
        None => None,
    };
    WptAssertRecord {
        name: clone_opt(&raw.name),
        status: clone_opt(&raw.status),
        stack: clone_opt(&raw.stack),
        test,
    }
}

/// The message for a report that came back unfinished.
pub open spec fn incomplete_message(script_name: Seq<char>) -> Seq<char> {
    "WPT bridge reported incomplete results for "@ + script_name
}

impl WptRun {
    /// Turns the bridge's report into a run; an unfinished report is an error.
    pub fn from_raw(raw: RawReport, script_name: &str) -> (r: Result<WptRun, String>)
        ensures
            !raw.done <==> r is Err,
            r matches Err(m) ==> m@ == incomplete_message(script_name@),
            r matches Ok(run) ==> run_from_raw(run, raw),
    {
        if !raw.done {
            let mut m = String::from_str("WPT bridge reported incomplete results for ");
            m.append(script_name);
            return Err(m);
        }
        let mut tests: Vec<WptTestResult> = Vec::new();
        let mut i: usize = 0;
        while i < raw.tests.len()
            invariant
                i <= raw.tests@.len(),
                tests@.len() == i,
                forall|k: int| 0 <= k < i ==> test_from_raw(#[trigger] tests@[k], raw.tests@[k]),
            decreases raw.tests@.len() - i,
        {
            tests.push(convert_test(&raw.tests[i]));
            i = i + 1;
        }
        let harness_status = match &raw.harness_status {
            Some(h) => Some(convert_harness(h)),
            None => None,
        };
        let mut asserts: Vec<WptAssertRecord> = Vec::new();
        let mut j: usize = 0;
        while j < raw.asserts.len()
            invariant
                j <= raw.asserts@.len(),
                asserts@.len() == j,
                forall|k: int|
                    0 <= k < j ==> assert_from_raw(#[trigger] asserts@[k], raw.asserts@[k]),
            decreases raw.asserts@.len() - j,
        {
            asserts.push(convert_assert(&raw.asserts[j]));
            j = j + 1;
        }
        Ok(WptRun { tests, harness_status, asserts })
    }
}

/// `s` cut at each line feed; a text without line feeds is one line.
pub open spec fn split_lines(s: Seq<char>) -> Seq<Seq<char>>
    decreases s.len(),
{
    if s.len() == 0 {
        seq![Seq::<char>::empty()]
    } else {
        let prev = split_lines(s.drop_last());
        if s.last() == '\n' {
            prev.push(Seq::<char>::empty())
        } else {
            prev.update(prev.len() - 1, prev.last().push(s.last()))
        }
    }
}

/// The manifest lines among `lines`: trimmed, with blank lines and `#` comments left out.
pub open spec fn manifest_lines(lines: Seq<Seq<char>>) -> Seq<Seq<char>>
    decreases lines.len(),
{
    if lines.len() == 0 {
        Seq::empty()
    } else {
        let kept = manifest_lines(lines.drop_last());
        let t = trim(lines.last());
        if t.len() > 0 && t[0] != '#' {
            kept.push(t)
        } else {
            kept
        }
    }
}

/// The entries that a manifest file lists.
pub open spec fn manifest_entries(contents: Seq<char>) -> Seq<Seq<char>> {
    manifest_lines(split_lines(contents))
}

proof fn lemma_split_lines_nonempty(s: Seq<char>)
    ensures
        split_lines(s).len() >= 1,
    decreases s.len(),
{
    if s.len() > 0 {
        lemma_split_lines_nonempty(s.drop_last());
    }
}

/// The relative paths of the tests to run.
#[derive(Debug)]
pub struct WptManifest {
    entries: Vec<String>,
}

pub open spec fn strings_view(v: Seq<String>) -> Seq<Seq<char>> {
    v.map_values(|s: String| s@)
}

impl WptManifest {
    pub closed spec fn view(&self) -> Seq<Seq<char>> {
        strings_view(self.entries@)
    }

    /// Reads a manifest: one test path per line; blank lines and lines starting with
    /// `#` are skipped.
    pub fn from_contents(contents: &str) -> (r: WptManifest)
        ensures
            r.view() == manifest_entries(contents@),
    {
        let cs = chars_of(contents);
        let ghost s = contents@;
        let mut entries: Vec<String> = Vec::new();
        let ghost mut done_lines: Seq<Seq<char>> = Seq::empty();
        let mut start: usize = 0;
        let mut i: usize = 0;
        proof {
            assert(s.take(0) =~= Seq::<char>::empty());
            assert(split_lines(s.take(0)) =~= done_lines.push(s.subrange(0, 0)));
        }
        while i < cs.len()
            invariant
                cs@ == s,
                start <= i <= s.len(),
                split_lines(s.take(i as int)) == done_lines.push(s.subrange(start as int, i as int)),
                strings_view(entries@) == manifest_lines(done_lines),
            decreases s.len() - i,
        {
            let ghost t = s.take(i + 1);
            proof {
                assert(t.drop_last() =~= s.take(i as int));
                assert(t.last() == s[i as int]);
            }
            if cs[i] == '\n' {
                let line = string_from_range(cs.as_slice(), start, i);
                let trimmed = trim_string(line.as_str());
                let tc = chars_of(trimmed.as_str());
                let ghost old_entries = strings_view(entries@);
                if tc.len() > 0 && tc[0] != '#' {
                    entries.push(trimmed);
                    proof {
                        assert(strings_view(entries@) =~= old_entries.push(trim(line@)));
                    }
                }
                proof {
                    let nl = done_lines.push(s.subrange(start as int, i as int));
                    assert(nl.drop_last() =~= done_lines);
                    done_lines = nl;
                    assert(s.subrange(i + 1, i + 1) =~= Seq::<char>::empty());
                }
                start = i + 1;
            } else {
                proof {
                    let prev = done_lines.push(s.subrange(start as int, i as int));
                    assert(prev.last() == s.subrange(start as int, i as int));
                    assert(s.subrange(start as int, i as int).push(s[i as int]) =~= s.subrange(
                        start as int,
                        i + 1,
                    ));
                    assert(prev.update(prev.len() - 1, prev.last().push(s[i as int]))
                        =~= done_lines.push(s.subrange(start as int, i + 1)));
                }
            }
            i = i + 1;
        }
        let line = string_from_range(cs.as_slice(), start, cs.len());
        let trimmed = trim_string(line.as_str());
        let tc = chars_of(trimmed.as_str());
        let ghost old_entries = strings_view(entries@);
        let ghost all_lines = done_lines.push(s.subrange(start as int, s.len() as int));
        proof {
            assert(s.take(s.len() as int) =~= s);
            assert(all_lines.drop_last() =~= done_lines);
        }
        if tc.len() > 0 && tc[0] != '#' {
            entries.push(trimmed);
            proof {
                assert(strings_view(entries@) =~= old_entries.push(trim(line@)));
            }
        }
        WptManifest { entries }
    }

    /// The listed test paths, in order.
    pub fn entries(&self) -> (r: &[String])
        ensures
            strings_view(r@) == self.view(),
    {
        self.entries.as_slice()
    }
}

/// A manifest entry and the outcome of running it.
#[derive(Debug)]
pub struct WptManifestResult {
    pub entry: String,
    pub outcome: WptRun,
}

/// Opening that hides `document` from the harness while it loads.
pub open spec fn harness_prologue() -> Seq<char> {
    "(function(){\n  var __frontierHadDocument = typeof document !== 'undefined';\n  var __frontierDocument = __frontierHadDocument ? document : undefined;\n  if (__frontierHadDocument) {\n    try {\n      delete globalThis.document;\n    } catch (err) {\n      globalThis.document = undefined;\n    }\n  }\n\n"@
}

/// Closing that gives `document` back.
pub open spec fn harness_epilogue() -> Seq<char> {
    "\n\n  if (__frontierHadDocument) {\n    globalThis.document = __frontierDocument;\n  }\n})();\n"@
}

/// Wraps `testharness.js` so that it loads as in a shell, without a document.
pub fn wrap_harness_for_shell(source: &str) -> (r: String)
    ensures
        r@ == harness_prologue() + source@ + harness_epilogue(),
{
    let mut wrapped = String::from_str(
        "(function(){\n  var __frontierHadDocument = typeof document !== 'undefined';\n  var __frontierDocument = __frontierHadDocument ? document : undefined;\n  if (__frontierHadDocument) {\n    try {\n      delete globalThis.document;\n    } catch (err) {\n      globalThis.document = undefined;\n    }\n  }\n\n",
    );
    wrapped.append(source);
    wrapped.append(
        "\n\n  if (__frontierHadDocument) {\n    globalThis.document = __frontierDocument;\n  }\n})();\n",
    );
    wrapped
}

/// What the runner does after one look at the harness.
#[derive(Debug, Clone, Copy, PartialEq, Eq, Structural)]
pub enum WaitStep {
    /// The harness is done.
    Finished,
    /// The test ran out of time.
    TimedOut,
    /// Wait a poll interval and look again.
    Poll,
}

/// The runner that loads the harness and runs tests in a fresh page each.
pub struct WptRunner {
    root: String,
    harness_wrapped_js: String,
    harness_report_js: String,
    timeout_ms: u64,
}

impl WptRunner {
    pub closed spec fn root_view(&self) -> Seq<char> {
        self.root@
    }

    pub closed spec fn harness_view(&self) -> Seq<char> {
        self.harness_wrapped_js@
    }

    pub closed spec fn report_view(&self) -> Seq<char> {
        self.harness_report_js@
    }

    pub closed spec fn timeout_view(&self) -> u64 {
        self.timeout_ms
    }

    /// A runner for the suite under `root`, given the text of `testharness.js` and
    /// `testharnessreport.js`; the harness is wrapped for the shell.
    pub fn from_sources(root: String, harness_js: &str, harness_report_js: String) -> (r: WptRunner)
        ensures
            r.root_view() == root@,
            r.harness_view() == harness_prologue() + harness_js@ + harness_epilogue(),
            r.report_view() == harness_report_js@,
            r.timeout_view() == DEFAULT_TEST_TIMEOUT_MS,
    {
        WptRunner {
            root,
            harness_wrapped_js: wrap_harness_for_shell(harness_js),
            harness_report_js,
            timeout_ms: DEFAULT_TEST_TIMEOUT_MS,
        }
    }

    /// The same runner with another time limit per test, in milliseconds.
    pub fn with_timeout(self, timeout_ms: u64) -> (r: WptRunner)
        ensures
            r.timeout_view() == timeout_ms,
            r.root_view() == self.root_view(),
            r.harness_view() == self.harness_view(),
            r.report_view() == self.report_view(),
    {
        let mut s = self;
        s.timeout_ms = timeout_ms;
        s
    }

    pub fn root(&self) -> (r: &str)
        ensures
            r@ == self.root_view(),
    {
        self.root.as_str()
    }

    pub fn harness_wrapped_js(&self) -> (r: &str)
        ensures
            r@ == self.harness_view(),
    {
        self.harness_wrapped_js.as_str()
    }

    pub fn harness_report_js(&self) -> (r: &str)
        ensures
            r@ == self.report_view(),
    {
        self.harness_report_js.as_str()
    }

    pub fn timeout_ms(&self) -> (r: u64)
        ensures
            r == self.timeout_view(),
    {
        self.timeout_ms
    }

    /// The decision after one look at the harness: done wins over a timeout, and the
    /// time limit is exceeded only once strictly more time than it has passed.
    pub fn next_step(&self, done: bool, elapsed_ms: u64) -> (r: WaitStep)
        ensures
            done ==> r == WaitStep::Finished,
            !done && elapsed_ms > self.timeout_view() ==> r == WaitStep::TimedOut,
            !done && elapsed_ms <= self.timeout_view() ==> r == WaitStep::Poll,
    {
        if done {
            WaitStep::Finished
        } else if elapsed_ms > self.timeout_ms {
            WaitStep::TimedOut
        } else {
            WaitStep::Poll
        }
    }
}

/// Every manifest entry is a non-empty line that does not start with `#`.
pub proof fn lemma_manifest_entries_kept(lines: Seq<Seq<char>>)
    ensures
        forall|i: int|
            0 <= i < manifest_lines(lines).len() ==> (#[trigger] manifest_lines(lines)[i]).len() > 0
                && manifest_lines(lines)[i][0] != '#',
    decreases lines.len(),
{
    if lines.len() > 0 {
        lemma_manifest_entries_kept(lines.drop_last());
        let kept = manifest_lines(lines.drop_last());
        let t = trim(lines.last());
        if t.len() > 0 && t[0] != '#' {
            assert forall|i: int| 0 <= i < manifest_lines(lines).len() implies (#[trigger] manifest_lines(lines)[i]).len() > 0
                && manifest_lines(lines)[i][0] != '#' by {
                if i < kept.len() {
                    assert(manifest_lines(lines)[i] == kept[i]);
                }
            }
        }
    }
}

/// A run is a success exactly when the harness reported OK (or nothing) and every subtest
/// passed: a harness status other than OK fails the run whatever its subtests say, and so
/// does any subtest that did not pass.
pub proof fn lemma_run_success(run: WptRun)
    ensures
        (run.harness_status matches Some(h) && !(h.status is Okay)) ==> !run_succeeded(run),
        (exists|i: int| 0 <= i < run.tests@.len() && !(run.tests@[i].status is Pass))
            ==> !run_succeeded(run),
        (run.harness_status matches Some(h) ==> h.status is Okay) && (forall|i: int|
            0 <= i < run.tests@.len() ==> run.tests@[i].status is Pass) ==> run_succeeded(run),
{
}

} // verus!

//! How the page runtime finds the text of its blocking scripts.
use vstd::prelude::*;

use base64::Engine;

use crate::js::processor::{
    copy_descriptor, descriptor_view, descriptors_view, DescriptorView, ScriptExecutionSummary,
};
use crate::js::script::{ScriptDescriptor, ScriptExecution, ScriptKind};
use crate::text::{chars_of, decode_utf8, utf8_outcome, ends_with, starts_with, str_equal, string_from_chars, string_from_range, trim_chars};
use crate::weburl::{url_join, url_join_outcome, url_parse, url_parse_outcome, ParsedUrl, UrlParts};

verus! {

/// The classic scripts that block parsing, in order.
pub open spec fn blocking_classic(v: Seq<DescriptorView>) -> Seq<DescriptorView>
    decreases v.len(),
{
    if v.len() == 0 {
        Seq::empty()
    } else {
        let prev = blocking_classic(v.drop_last());
        if v.last().2 == ScriptExecution::Blocking && v.last().1 == ScriptKind::Classic {
            prev.push(v.last())
        } else {
            prev
        }
    }
}

/// How many of the outcomes are successes.
pub open spec fn successes(outcomes: Seq<bool>) -> nat
    decreases outcomes.len(),
{
    if outcomes.len() == 0 {
        0
    } else {
        successes(outcomes.drop_last()) + if outcomes.last() {
            1nat
        } else {
            0nat
        }
    }
}

proof fn lemma_successes_bounded(outcomes: Seq<bool>)
    ensures
        successes(outcomes) <= outcomes.len(),
    decreases outcomes.len(),
{
    if outcomes.len() > 0 {
        lemma_successes_bounded(outcomes.drop_last());
    }
}

/// What a run of the blocking scripts reports, given whether each of them evaluated without
/// error and how many DOM patches the run left: nothing where there was no blocking script,
/// else the number that ran without error and the patch count.
pub fn blocking_run_summary(succeeded: &[bool], dom_mutations: usize) -> (r: Option<ScriptExecutionSummary>)
    ensures
        succeeded@.len() == 0 ==> r is None,
        succeeded@.len() > 0 ==> (r matches Some(s) && s.executed_scripts == successes(succeeded@)
            && s.dom_mutations == dom_mutations),
{
    if succeeded.len() == 0 {
        return None;
    }
    let mut executed: usize = 0;
    let mut i: usize = 0;
    while i < succeeded.len()
        invariant
            i <= succeeded@.len(),
            executed == successes(succeeded@.take(i as int)),
        decreases succeeded@.len() - i,
    {
        proof {
            assert(succeeded@.take(i + 1).drop_last() =~= succeeded@.take(i as int));
            lemma_successes_bounded(succeeded@.take(i as int));
        }
        if succeeded[i] {
            executed = executed + 1;
        }
        i = i + 1;
    }
    proof {
        assert(succeeded@.take(succeeded@.len() as int) =~= succeeded@);
    }
    Some(ScriptExecutionSummary { executed_scripts: executed, dom_mutations })
}

/// The scripts that `run_blocking_scripts` runs: classic and blocking, in order.
pub fn blocking_classic_scripts(scripts: &[ScriptDescriptor]) -> (r: Vec<ScriptDescriptor>)
    ensures
        descriptors_view(r@) == blocking_classic(descriptors_view(scripts@)),
{
    let ghost sv = descriptors_view(scripts@);
    let mut out: Vec<ScriptDescriptor> = Vec::new();
    let mut i: usize = 0;
    proof {
        assert(sv.take(0) =~= Seq::<DescriptorView>::empty());
        assert(descriptors_view(out@) =~= Seq::<DescriptorView>::empty());
    }
    while i < scripts.len()
        invariant
            sv == descriptors_view(scripts@),
            i <= scripts@.len(),
            descriptors_view(out@) == blocking_classic(sv.take(i as int)),
        decreases scripts@.len() - i,
    {
        let d = &scripts[i];
        proof {
            let t = sv.take(i + 1);
            assert(t.drop_last() =~= sv.take(i as int));
            assert(t.last() == descriptor_view(*d));
        }
        let ghost old_out = descriptors_view(out@);
        if d.execution == ScriptExecution::Blocking && d.kind == ScriptKind::Classic {
            out.push(copy_descriptor(d));
            proof {
                assert(descriptors_view(out@) =~= old_out.push(descriptor_view(*d)));
            }
        }
        i = i + 1;
    }
    proof {
        assert(sv.take(scripts@.len() as int) =~= sv);
    }
    out
}

/// Where a script's `src` leads.
#[derive(Debug, Clone, PartialEq, Eq)]
pub enum ScriptLocation {
    /// A URL, parsed on its own or joined to the page's base URL.
    Url(ParsedUrl),
    /// Neither worked: the text is a file path.
    FilePath,
}

/// How a `src` is resolved: blank is an error; an absolute URL is taken as it is; else
/// it is joined to the base URL (when there is one and the join works); else it is taken
/// for a file path.
pub open spec fn script_location_of(src: Seq<char>, base: Option<Seq<char>>) -> Result<
    Option<UrlParts>,
    Seq<char>,
> {
    if crate::text::trim(src).len() == 0 {
        Err("script src attribute cannot be empty"@)
    } else {
        match url_parse_outcome(src) {
            Ok(p) => Ok(Some(p)),
            Err(_) => match base {
                Some(b) => match url_join_outcome(b, src) {
                    Ok(p) => Ok(Some(p)),
                    Err(_) => Ok(None),
                },
                None => Ok(None),
            },
        }
    }
}

/// Resolves the `src` of a blocking script against the page's base URL (given by its
/// serialization).
pub fn resolve_script_src(src: &str, base: Option<&str>) -> (r: Result<ScriptLocation, String>)
    ensures
        match script_location_of(
            src@,
            match base {
                Some(b) => Some(b@),
                None => None,
            },
        ) {
            Ok(Some(p)) => r matches Ok(ScriptLocation::Url(u)) && u.parts() == p,
            Ok(None) => r matches Ok(ScriptLocation::FilePath),
            Err(m) => r matches Err(e) && e@ == m,
        },
{
    let t = trim_chars(src);
    if t.len() == 0 {
        return Err(String::from_str("script src attribute cannot be empty"));
    }
    match url_parse(src) {
        Ok(u) => Ok(ScriptLocation::Url(u)),
        Err(_) => match base {
            Some(b) => match url_join(b, src) {
                Ok(u) => Ok(ScriptLocation::Url(u)),
                Err(_) => Ok(ScriptLocation::FilePath),
            },
            None => Ok(ScriptLocation::FilePath),
        },
    }
}

/// The script side of a page runtime: the page's scripts, its base URL, and whether its
/// blocking scripts already ran.
pub struct PageScripts {
    scripts: Vec<ScriptDescriptor>,
    base_url: Option<ParsedUrl>,
    executed_blocking: bool,
}

/// The base URL a runtime keeps: the given one where it parses.
pub open spec fn kept_base(base_url: Option<Seq<char>>) -> Option<UrlParts> {
    match base_url {
        Some(b) => match url_parse_outcome(b) {
            Ok(p) => Some(p),
            Err(_) => None,
        },
        None => None,
    }
}

/// Starting a run of the blocking scripts, given whether they already ran: whether they
/// count as run afterwards, and the scripts to evaluate (none once a run finished, and none
/// where the page has no blocking script, which then counts as run).
pub open spec fn begin_outcome(ran: bool, scripts: Seq<DescriptorView>) -> (
    bool,
    Option<Seq<DescriptorView>>,
) {
    if ran {
        (true, None)
    } else if blocking_classic(scripts).len() == 0 {
        (true, None)
    } else {
        (false, Some(blocking_classic(scripts)))
    }
}

/// Blocking scripts run once: a start that finds nothing to run leaves them counted as
/// run, and once they count as run (after `finish_blocking_run` too) every later start
/// finds nothing to run and changes nothing.
pub proof fn lemma_blocking_scripts_run_once(ran: bool, scripts: Seq<DescriptorView>)
    ensures
        begin_outcome(ran, scripts).1 is None ==> begin_outcome(ran, scripts).0,
        begin_outcome(true, scripts) == (true, None::<Seq<DescriptorView>>),
{
}

impl PageScripts {
    pub closed spec fn scripts_view(&self) -> Seq<DescriptorView> {
        descriptors_view(self.scripts@)
    }

    pub closed spec fn base_view(&self) -> Option<UrlParts> {
        match self.base_url {
            Some(u) => Some(u.parts()),
            None => None,
        }
    }

    /// Whether the blocking scripts already ran (or there were none to run).
    pub closed spec fn ran(&self) -> bool {
        self.executed_blocking
    }

    /// The runtime side of a page: none for a page without scripts. A base URL that does
    /// not parse is dropped.
    pub fn new(scripts: &[ScriptDescriptor], base_url: Option<&str>) -> (r: Option<PageScripts>)
        ensures
            scripts@.len() == 0 ==> r is None,
            scripts@.len() > 0 ==> (r matches Some(p) && p.scripts_view() == descriptors_view(
                scripts@,
            ) && !p.ran() && p.base_view() == kept_base(
                match base_url {
                    Some(b) => Some(b@),
                    None => None,
                },
            )),
    {
        if scripts.len() == 0 {
            return None;
        }
        let mut copied: Vec<ScriptDescriptor> = Vec::new();
        let mut i: usize = 0;
        while i < scripts.len()
            invariant
                i <= scripts@.len(),
                descriptors_view(copied@) == descriptors_view(scripts@).take(i as int),
            decreases scripts@.len() - i,
        {
            let ghost before = descriptors_view(copied@);
            copied.push(copy_descriptor(&scripts[i]));
            proof {
                assert(descriptors_view(copied@) =~= before.push(descriptor_view(scripts@[i as int])));
                assert(descriptors_view(scripts@).take(i + 1) =~= descriptors_view(scripts@).take(
                    i as int,
                ).push(descriptor_view(scripts@[i as int])));
            }
            i = i + 1;
        }
        proof {
            assert(descriptors_view(scripts@).take(scripts@.len() as int) =~= descriptors_view(
                scripts@,
            ));
        }
        let base = match base_url {
            Some(b) => match url_parse(b) {
                Ok(u) => Some(u),
                Err(_) => None,
            },
            None => None,
        };
        Some(PageScripts { scripts: copied, base_url: base, executed_blocking: false })
    }

    /// Starts a run of the blocking scripts: the classic blocking scripts to evaluate, in
    /// order. There is nothing to run once a run finished, and a page without blocking
    /// scripts counts as run.
    pub fn begin_blocking_run(&mut self) -> (r: Option<Vec<ScriptDescriptor>>)
        ensures
            final(self).scripts_view() == old(self).scripts_view(),
            final(self).base_view() == old(self).base_view(),
            final(self).ran() == begin_outcome(old(self).ran(), old(self).scripts_view()).0,
            match begin_outcome(old(self).ran(), old(self).scripts_view()).1 {
                None => r is None,
                Some(v) => r matches Some(w) && descriptors_view(w@) == v,
            },
    {
        if self.executed_blocking {
            return None;
        }
        let blocking = blocking_classic_scripts(self.scripts.as_slice());
        if blocking.len() == 0 {
            self.executed_blocking = true;
            return None;
        }
        Some(blocking)
    }

    /// Ends a run of the blocking scripts, given whether each evaluated without error and
    /// how many DOM patches the run left: the blocking scripts count as run, and the run's
    /// summary is reported.
    pub fn finish_blocking_run(&mut self, succeeded: &[bool], dom_mutations: usize) -> (r: Option<
        ScriptExecutionSummary,
    >)
        ensures
            final(self).ran(),
            final(self).scripts_view() == old(self).scripts_view(),
            final(self).base_view() == old(self).base_view(),
            succeeded@.len() == 0 ==> r is None,
            succeeded@.len() > 0 ==> (r matches Some(s) && s.executed_scripts == successes(
                succeeded@,
            ) && s.dom_mutations == dom_mutations),
    {
        self.executed_blocking = true;
        blocking_run_summary(succeeded, dom_mutations)
    }

    /// Resolves a script's `src` against the page's base URL.
    pub fn resolve_script_url(&self, src: &str) -> (r: Result<ScriptLocation, String>)
        ensures
            match script_location_of(
                src@,
                match self.base_view() {
                    Some(p) => Some(p.0),
                    None => None,
                },
            ) {
                Ok(Some(p)) => r matches Ok(ScriptLocation::Url(u)) && u.parts() == p,
                Ok(None) => r matches Ok(ScriptLocation::FilePath),
                Err(m) => r matches Err(e) && e@ == m,
            },
    {
        match &self.base_url {
            Some(u) => resolve_script_src(src, Some(u.as_str())),
            None => resolve_script_src(src, None),
        }
    }
}

/// How a script URL is loaded.
#[derive(Debug, Clone, Copy, PartialEq, Eq, Structural)]
pub enum ScriptLoader {
    File,
    Http,
    Data,
}

/// The loader of a URL scheme; other schemes are refused.
pub open spec fn loader_of(scheme: Seq<char>) -> Result<ScriptLoader, Seq<char>> {
    if scheme == "file"@ {
        Ok(ScriptLoader::File)
    } else if scheme == "http"@ || scheme == "https"@ {
        Ok(ScriptLoader::Http)
    } else if scheme == "data"@ {
        Ok(ScriptLoader::Data)
    } else {
        Err("unsupported script scheme: "@ + scheme)
    }
}

/// Picks the loader for a script URL's scheme.
pub fn loader_for_scheme(scheme: &str) -> (r: Result<ScriptLoader, String>)
    ensures
        match loader_of(scheme@) {
            Ok(l) => r == Ok::<ScriptLoader, String>(l),
            Err(m) => r matches Err(e) && e@ == m,
        },
{
    if str_equal(scheme, "file") {
        Ok(ScriptLoader::File)
    } else if str_equal(scheme, "http") || str_equal(scheme, "https") {
        Ok(ScriptLoader::Http)
    } else if str_equal(scheme, "data") {
        Ok(ScriptLoader::Data)
    } else {
        let mut m = String::from_str("unsupported script scheme: ");
        m.append(scheme);
        Err(m)
    }
}

/// The first position of `c` in `s` at or after `i`.
pub open spec fn find_char(s: Seq<char>, c: char, i: int) -> Option<int>
    decreases s.len() - i,
{
    if i >= s.len() || i < 0 {
        None
    } else if s[i] == c {
        Some(i)
    } else {
        find_char(s, c, i + 1)
    }
}

proof fn lemma_find_char(s: Seq<char>, c: char, i: int)
    requires
        0 <= i,
    ensures
        match find_char(s, c, i) {
            Some(k) => i <= k < s.len() && s[k] == c && forall|j: int| i <= j < k ==> s[j] != c,
            None => forall|j: int| i <= j < s.len() ==> s[j] != c,
        },
    decreases s.len() - i,
{
    if i < s.len() && s[i] != c {
        lemma_find_char(s, c, i + 1);
    }
}

/// `s` with every trailing copy of `suffix` removed (`str::trim_end_matches`).
pub open spec fn strip_suffixes(s: Seq<char>, suffix: Seq<char>) -> Seq<char>
    decreases s.len(),
{
    if suffix.len() > 0 && ends_with(s, suffix) {
        strip_suffixes(s.take(s.len() - suffix.len()), suffix)
    } else {
        s
    }
}

/// `s` without its line feeds.
pub open spec fn without_newlines(s: Seq<char>) -> Seq<char>
    decreases s.len(),
{
    if s.len() == 0 {
        s
    } else if s.last() == '\n' {
        without_newlines(s.drop_last())
    } else {
        without_newlines(s.drop_last()).push(s.last())
    }
}

/// The bytes that `base64`'s standard engine decodes from a text, if it accepts it.
pub uninterp spec fn base64_standard_decoded(text: Seq<char>) -> Option<Seq<u8>>;

/// The text that `percent_encoding` decodes from a payload, if the bytes are UTF-8.
pub uninterp spec fn percent_decoded_utf8(text: Seq<char>) -> Option<Seq<char>>;

/// Decodes a text with `base64::engine::general_purpose::STANDARD`.
/// Trusted: the result is `base64_standard_decoded(text)`.
#[verifier::external_body]
fn base64_decode(text: &str) -> (r: Option<Vec<u8>>)
    ensures
        match r {
            Some(v) => base64_standard_decoded(text@) == Some(v@),
            None => base64_standard_decoded(text@) is None,
        },
{
    base64::engine::general_purpose::STANDARD.decode(text.as_bytes()).ok()
}

/// Percent-decodes a text with `percent_encoding::percent_decode_str(..).decode_utf8()`.
/// Trusted: the result is `percent_decoded_utf8(text)`.
#[verifier::external_body]
fn percent_decode_utf8(text: &str) -> (r: Option<String>)
    ensures
        match r {
            Some(s) => percent_decoded_utf8(text@) == Some(s@),
            None => percent_decoded_utf8(text@) is None,
        },
{
    percent_encoding::percent_decode_str(text).decode_utf8().ok().map(|c| c.into_owned())
}

/// What a `data:` script URL holds: its text and the name to evaluate it under, or the
/// error message.
pub open spec fn data_url_outcome(raw: Seq<char>) -> Result<(Seq<char>, Seq<char>), Seq<char>> {
    if !starts_with(raw, "data:"@) {
        Err("invalid data URL: "@ + raw)
    } else {
        let rest = raw.skip(5);
        match find_char(rest, ',', 0) {
            None => Err("data URL missing payload: "@ + raw),
            Some(c) => {
                let metadata = rest.take(c);
                let payload = rest.skip(c + 1);
                let mime = strip_suffixes(metadata, ";base64"@);
                let filename = if mime.len() == 0 {
                    "data:application/javascript"@
                } else {
                    "data:"@ + mime
                };
                if ends_with(metadata, ";base64"@) {
                    match base64_standard_decoded(without_newlines(payload)) {
                        None => Err("decoding base64 data URL "@ + raw),
                        Some(bytes) => match utf8_outcome(bytes) {
                            Err(_) => Err("data URL payload is not UTF-8: "@ + raw),
                            Ok(code) => Ok((code, filename)),
                        },
                    }
                } else {
                    match percent_decoded_utf8(payload) {
                        None => Err("percent-decoding data URL "@ + raw),
                        Some(code) => Ok((code, filename)),
                    }
                }
            },
        }
    }
}

fn find_comma(s: &[char], from: usize) -> (r: Option<usize>)
    requires
        from <= s@.len(),
    ensures
        match find_char(s@, ',', from as int) {
            Some(i) => r == Some(i as usize),
            None => r is None,
        },
    decreases s@.len() - from,
{
    if from >= s.len() {
        None
    } else if s[from] == ',' {
        Some(from)
    } else {
        find_comma(s, from + 1)
    }
}

fn strip_base64_suffixes(s: &[char], end: usize) -> (r: usize)
    requires
        end <= s@.len(),
    ensures
        r <= end,
        s@.take(r as int) == strip_suffixes(s@.take(end as int), ";base64"@),
    decreases end,
{
    let suffix = chars_of(";base64");
    proof {
        reveal_strlit(";base64");
    }
    let t = string_from_range(s, 0, end);
    if crate::text::str_ends_with(t.as_str(), ";base64") {
        proof {
            assert(s@.subrange(0, end as int) =~= s@.take(end as int));
            assert(s@.take(end as int).take(end - 7) =~= s@.take(end - 7));
        }
        strip_base64_suffixes(s, end - 7)
    } else {
        proof {
            assert(s@.subrange(0, end as int) =~= s@.take(end as int));
        }
        end
    }
}

fn remove_newlines(s: &[char]) -> (r: Vec<char>)
    ensures
        r@ == without_newlines(s@),
{
    let mut out: Vec<char> = Vec::new();
    let mut i: usize = 0;
    proof {
        assert(s@.take(0) =~= Seq::<char>::empty());
    }
    while i < s.len()
        invariant
            i <= s@.len(),
            out@ == without_newlines(s@.take(i as int)),
        decreases s@.len() - i,
    {
        proof {
            let t = s@.take(i + 1);
            assert(t.drop_last() =~= s@.take(i as int));
            assert(t.last() == s@[i as int]);
        }
        if s[i] != '\n' {
            out.push(s[i]);
        }
        i = i + 1;
    }
    proof {
        assert(s@.take(s@.len() as int) =~= s@);
    }
    out
}

/// Reads the text of a `data:` script URL, given by its serialization.
pub fn decode_data_url(raw: &str) -> (r: Result<(String, String), String>)
    ensures
        match data_url_outcome(raw@) {
            Ok((code, name)) => r matches Ok((c, n)) && c@ == code && n@ == name,
            Err(m) => r matches Err(e) && e@ == m,
        },
{
    proof {
        reveal_strlit("data:");
        reveal_strlit(";base64");
    }
    if !crate::text::str_starts_with(raw, "data:") {
        let mut m = String::from_str("invalid data URL: ");
        m.append(raw);
        return Err(m);
    }
    let cs = chars_of(raw);
    let rest = string_from_range(cs.as_slice(), 5, cs.len());
    let rc = chars_of(rest.as_str());
    proof {
        assert(rc@ =~= raw@.skip(5));
    }
    let comma = match find_comma(rc.as_slice(), 0) {
        None => {
            let mut m = String::from_str("data URL missing payload: ");
            m.append(raw);
            return Err(m);
        },
        Some(c) => c,
    };
    proof {
        lemma_find_char(rc@, ',', 0);
    }
    let metadata = string_from_range(rc.as_slice(), 0, comma);
    let payload = string_from_range(rc.as_slice(), comma + 1, rc.len());
    let mc = chars_of(metadata.as_str());
    let mime_end = strip_base64_suffixes(mc.as_slice(), mc.len());
    let mime = string_from_range(mc.as_slice(), 0, mime_end);
    proof {
        assert(rc@.subrange(0, comma as int) =~= rc@.take(comma as int));
        assert(rc@.subrange(comma + 1, rc@.len() as int) =~= rc@.skip(comma + 1));
        assert(mc@.take(mc@.len() as int) =~= mc@);
        assert(mc@.subrange(0, mime_end as int) =~= mc@.take(mime_end as int));
    }
    let filename = if mime_end == 0 {
        String::from_str("data:application/javascript")
    } else {
        let mut f = String::from_str("data:");
        f.append(mime.as_str());
        f
    };
    if crate::text::str_ends_with(metadata.as_str(), ";base64") {
        let pc = chars_of(payload.as_str());
        let normalized = remove_newlines(pc.as_slice());
        let normalized_text = string_from_chars(normalized.as_slice());
        match base64_decode(normalized_text.as_str()) {
            None => {
                let mut m = String::from_str("decoding base64 data URL ");
                m.append(raw);
                Err(m)
            },
            Some(bytes) => match decode_utf8(bytes) {
                Err(_) => {
                    let mut m = String::from_str("data URL payload is not UTF-8: ");
                    m.append(raw);
                    Err(m)
                },
                Ok(code) => Ok((code, filename)),
            },
        }
    } else {
        match percent_decode_utf8(payload.as_str()) {
            None => {
                let mut m = String::from_str("percent-decoding data URL ");
                m.append(raw);
                Err(m)
            },
            Some(code) => Ok((code, filename)),
        }
    }
}

/// The scripts of a blocking run are exactly the page's classic blocking scripts: every
/// one handed out is classic and blocking, every classic blocking script of the page is
/// handed out, and they keep their page order.
pub proof fn lemma_blocking_run_scripts(v: Seq<DescriptorView>)
    ensures
        forall|j: int|
            0 <= j < blocking_classic(v).len() ==> (#[trigger] blocking_classic(v)[j]).1
                == ScriptKind::Classic && blocking_classic(v)[j].2 == ScriptExecution::Blocking
                && v.contains(blocking_classic(v)[j]),
        forall|i: int|
            0 <= i < v.len() && v[i].1 == ScriptKind::Classic && v[i].2 == ScriptExecution::Blocking
                ==> blocking_classic(v).contains(#[trigger] v[i]),
        blocking_classic(v).len() <= v.len(),
    decreases v.len(),
{
    if v.len() > 0 {
        let d = v.drop_last();
        lemma_blocking_run_scripts(d);
        let b = blocking_classic(d);
        assert forall|j: int| 0 <= j < blocking_classic(v).len() implies (#[trigger] blocking_classic(v)[j]).1
            == ScriptKind::Classic && blocking_classic(v)[j].2 == ScriptExecution::Blocking
            && v.contains(blocking_classic(v)[j]) by {
            if j < b.len() {
                assert(blocking_classic(v)[j] == b[j]);
                let k = choose|k: int| 0 <= k < d.len() && d[k] == b[j];
                assert(v[k] == d[k]);
            } else {
                assert(v[v.len() - 1] == v.last());
            }
        }
        assert forall|i: int|
            0 <= i < v.len() && v[i].1 == ScriptKind::Classic && v[i].2 == ScriptExecution::Blocking
                implies blocking_classic(v).contains(#[trigger] v[i]) by {
            if i < d.len() {
                assert(d[i] == v[i]);
                let k = choose|k: int| 0 <= k < b.len() && b[k] == d[i];
                assert(blocking_classic(v)[k] == b[k]);
            } else {
                assert(v[i] == v.last());
                assert(blocking_classic(v)[b.len() as int] == v.last());
            }
        }
    }
}

} // verus!

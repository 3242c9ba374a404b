//! Finding the scripts of a document and deciding how each one runs.
use vstd::prelude::*;

use kuchiki::traits::TendrilSink;

use crate::js::script::{ScriptDescriptor, ScriptExecution, ScriptKind, ScriptSource};
use crate::text::{ascii_lowercase, chars_equal, decimal, decimal_string, to_ascii_lowercase, trim, trim_chars, trim_string};

verus! {

/// The attributes and text of one `<script>` element, as the HTML parser gives them.
#[derive(Debug, Clone, PartialEq, Eq)]
pub struct ScriptElement {
    /// The `type` attribute.
    pub type_attr: Option<String>,
    /// The `src` attribute.
    pub src: Option<String>,
    /// The element has an `async` attribute.
    pub has_async: bool,
    /// The element has a `defer` attribute.
    pub has_defer: bool,
    /// The element's text content.
    pub text: String,
}

/// A script element as plain values.
pub type ScriptElementView = (Option<Seq<char>>, Option<Seq<char>>, bool, bool, Seq<char>);

pub open spec fn opt_chars(o: Option<String>) -> Option<Seq<char>> {
    match o {
        Some(s) => Some(s@),
        None => None,
    }
}

impl View for ScriptElement {
    type V = ScriptElementView;

    open spec fn view(&self) -> ScriptElementView {
        (opt_chars(self.type_attr), opt_chars(self.src), self.has_async, self.has_defer, self.text@)
    }
}

/// Counters of one pass of script execution.
#[derive(Debug, Clone, Copy, PartialEq, Eq, Structural)]
pub struct ScriptExecutionSummary {
    pub executed_scripts: usize,
    pub dom_mutations: usize,
}

/// The kind that a `type` attribute names: none, empty and the JavaScript types are
/// classic, the module types are modules, anything else is unknown. The attribute is
/// trimmed and compared without ASCII case.
pub open spec fn kind_of_type(script_type: Option<Seq<char>>) -> ScriptKind {
    match script_type {
        None => ScriptKind::Classic,
        Some(v) => {
            let t = ascii_lowercase(trim(v));
            if t == ""@ || t == "text/javascript"@ || t == "application/javascript"@ || t
                == "text/ecmascript"@ || t == "application/ecmascript"@ {
                ScriptKind::Classic
            } else if t == "module"@ || t == "text/javascript+module"@ {
                ScriptKind::Module
            } else {
                ScriptKind::Unknown
            }
        },
    }
}

fn lowered_is(t: &Vec<char>, lit: &str) -> (r: bool)
    ensures
        r == (t@ == lit@),
{
    let l = crate::text::chars_of(lit);
    chars_equal(t.as_slice(), l.as_slice())
}

/// Classifies a script by its `type` attribute.
pub fn classify_kind(script_type: Option<&str>) -> (r: ScriptKind)
    ensures
        r == kind_of_type(match script_type {
            Some(s) => Some(s@),
            None => None,
        }),
{
    match script_type {
        None => ScriptKind::Classic,
        Some(value) => {
            let trimmed = trim_string(value);
            let t = to_ascii_lowercase(trimmed.as_str());
            if lowered_is(&t, "") || lowered_is(&t, "text/javascript") || lowered_is(
                &t,
                "application/javascript",
            ) || lowered_is(&t, "text/ecmascript") || lowered_is(&t, "application/ecmascript") {
                ScriptKind::Classic
            } else if lowered_is(&t, "module") || lowered_is(&t, "text/javascript+module") {
                ScriptKind::Module
            } else {
                ScriptKind::Unknown
            }
        },
    }
}

/// The scheduling of a script: `async` wins over `defer`; without either, modules are
/// deferred and everything else blocks.
pub open spec fn execution_of(has_async: bool, has_defer: bool, kind: ScriptKind) -> ScriptExecution {
    if has_async {
        ScriptExecution::Async
    } else if has_defer {
        ScriptExecution::Defer
    } else if kind == ScriptKind::Module {
        ScriptExecution::Defer
    } else {
        ScriptExecution::Blocking
    }
}

/// Decides how a script is scheduled.
pub fn determine_execution(has_async: bool, has_defer: bool, kind: ScriptKind) -> (r: ScriptExecution)
    ensures
        r == execution_of(has_async, has_defer, kind),
{
    if has_async {
        return ScriptExecution::Async;
    }
    if has_defer {
        return ScriptExecution::Defer;
    }
    match kind {
        ScriptKind::Module => ScriptExecution::Defer,
        _ => ScriptExecution::Blocking,
    }
}

/// A script descriptor as (index, kind, execution, inline?, text).
pub type DescriptorView = (nat, ScriptKind, ScriptExecution, bool, Seq<char>);

pub open spec fn descriptor_view(d: ScriptDescriptor) -> DescriptorView {
    match d.source {
        ScriptSource::Inline { code } => (d.index as nat, d.kind, d.execution, true, code@),
        ScriptSource::External { src } => (d.index as nat, d.kind, d.execution, false, src@),
    }
}

pub open spec fn descriptors_view(v: Seq<ScriptDescriptor>) -> Seq<DescriptorView> {
    v.map_values(|d: ScriptDescriptor| descriptor_view(d))
}

/// What the script element at `index` contributes: an external script when its trimmed
/// `src` is not empty; otherwise an inline (always blocking) script when its text is not
/// blank; otherwise nothing.
pub open spec fn element_script(index: nat, e: ScriptElementView) -> Option<DescriptorView> {
    let kind = kind_of_type(e.0);
    match e.1 {
        Some(src) if trim(src).len() > 0 => Some(
            (index, kind, execution_of(e.2, e.3, kind), false, trim(src)),
        ),
        _ => if trim(e.4).len() > 0 {
            Some((index, kind, ScriptExecution::Blocking, true, e.4))
        } else {
            None
        },
    }
}

/// The scripts of a document's script elements, in document order.
pub open spec fn scripts_of(elements: Seq<ScriptElementView>) -> Seq<DescriptorView>
    decreases elements.len(),
{
    if elements.len() == 0 {
        Seq::empty()
    } else {
        let prev = scripts_of(elements.drop_last());
        match element_script((elements.len() - 1) as nat, elements.last()) {
            Some(d) => prev.push(d),
            None => prev,
        }
    }
}

pub open spec fn elements_view(v: Seq<ScriptElement>) -> Seq<ScriptElementView> {
    v.map_values(|e: ScriptElement| e@)
}

/// The script descriptors of a document's `<script>` elements.
pub fn scripts_from_elements(elements: &[ScriptElement]) -> (r: Vec<ScriptDescriptor>)
    ensures
        descriptors_view(r@) == scripts_of(elements_view(elements@)),
{
    let ghost ev = elements_view(elements@);
    let mut out: Vec<ScriptDescriptor> = Vec::new();
    let mut i: usize = 0;
    proof {
        assert(ev.take(0) =~= Seq::<ScriptElementView>::empty());
        assert(descriptors_view(out@) =~= Seq::<DescriptorView>::empty());
    }
    while i < elements.len()
        invariant
            ev == elements_view(elements@),
            i <= elements@.len(),
            descriptors_view(out@) == scripts_of(ev.take(i as int)),
        decreases elements@.len() - i,
    {
        let e = &elements[i];
        proof {
            let t = ev.take(i + 1);
            assert(t.drop_last() =~= ev.take(i as int));
            assert(t.last() == e@);
        }
        let kind = classify_kind(
            match &e.type_attr {
                Some(t) => Some(t.as_str()),
                None => None,
            },
        );
        let ghost old_out = descriptors_view(out@);
        let mut external = false;
        match &e.src {
            Some(src) => {
                let trimmed = trim_string(src.as_str());
                let tc = crate::text::chars_of(trimmed.as_str());
                if tc.len() > 0 {
                    let execution = determine_execution(e.has_async, e.has_defer, kind);
                    out.push(
                        ScriptDescriptor {
                            index: i,
                            kind,
                            execution,
                            source: ScriptSource::External { src: trimmed },
                        },
                    );
                    external = true;
                    proof {
                        assert(descriptors_view(out@) =~= old_out.push(
                            element_script(i as nat, e@)->0,
                        ));
                    }
                }
            },
            None => {},
        }
        if !external {
            let tc = trim_chars(e.text.as_str());
            if tc.len() > 0 {
                out.push(ScriptDescriptor::inline(i, e.text.clone(), kind));
                proof {
                    assert(descriptors_view(out@) =~= old_out.push(
                        element_script(i as nat, e@)->0,
                    ));
                }
            }
        }
        i = i + 1;
    }
    proof {
        assert(ev.take(elements@.len() as int) =~= ev);
    }
    out
}

/// The `<script>` elements of an HTML document, in document order, as kuchiki's parser
/// and its `script` selector find them; `None` when the selector is refused.
pub uninterp spec fn html_script_elements(html: Seq<char>) -> Option<Seq<ScriptElementView>>;

/// Parses `html` with `kuchiki::parse_html` and selects its `script` elements.
/// Trusted: the result is `html_script_elements(html)`, each element given by its `type`
/// and `src` attributes, whether it has `async` and `defer`, and its text content.
#[verifier::external_body]
fn select_script_elements(html: &str) -> (r: Option<Vec<ScriptElement>>)
    ensures
        match r {
            Some(v) => html_script_elements(html@) == Some(elements_view(v@)),
            None => html_script_elements(html@) is None,
        },
{
    let parsed = kuchiki::parse_html().one(html);
    let selected = parsed.select("script").ok()?;
    Some(selected.map(|script| {
        let attributes = script.attributes.borrow();
        ScriptElement {
            type_attr: attributes.get("type").map(|s| s.to_string()),
            src: attributes.get("src").map(|s| s.to_string()),
            has_async: attributes.get("async").is_some(),
            has_defer: attributes.get("defer").is_some(),
            text: script.text_contents(),
        }
    }).collect())
}

/// The scripts of an HTML document.
pub fn collect_scripts(html: &str) -> (r: Result<Vec<ScriptDescriptor>, String>)
    ensures
        match html_script_elements(html@) {
            Some(es) => r matches Ok(v) && descriptors_view(v@) == scripts_of(es),
            None => r matches Err(m) && m@ == "failed to compile selector"@,
        },
{
    match select_script_elements(html) {
        Some(elements) => Ok(scripts_from_elements(elements.as_slice())),
        None => Err(String::from_str("failed to compile selector")),
    }
}

/// The inline scripts that block parsing, in order.
pub open spec fn inline_blocking(v: Seq<DescriptorView>) -> Seq<DescriptorView>
    decreases v.len(),
{
    if v.len() == 0 {
        Seq::empty()
    } else {
        let prev = inline_blocking(v.drop_last());
        if v.last().3 && v.last().2 == ScriptExecution::Blocking {
            prev.push(v.last())
        } else {
            prev
        }
    }
}

/// A copy of a descriptor.
pub fn copy_descriptor(d: &ScriptDescriptor) -> (r: ScriptDescriptor)
    ensures
        descriptor_view(r) == descriptor_view(*d),
{
    let source = match &d.source {
        ScriptSource::Inline { code } => ScriptSource::Inline { code: code.clone() },
        ScriptSource::External { src } => ScriptSource::External { src: src.clone() },
    };
    ScriptDescriptor { index: d.index, kind: d.kind, execution: d.execution, source }
}

/// The inline scripts that block parsing.
pub fn filter_inline_classic(scripts: &[ScriptDescriptor]) -> (r: Vec<ScriptDescriptor>)
    ensures
        descriptors_view(r@) == inline_blocking(descriptors_view(scripts@)),
{
    let ghost sv = descriptors_view(scripts@);
    let mut out: Vec<ScriptDescriptor> = Vec::new();
    let mut i: usize = 0;
    proof {
        assert(sv.take(0) =~= Seq::<DescriptorView>::empty());
        assert(inline_blocking(sv.take(0)) =~= Seq::<DescriptorView>::empty());
        assert(descriptors_view(out@) =~= Seq::<DescriptorView>::empty());
    }
    while i < scripts.len()
        invariant
            sv == descriptors_view(scripts@),
            i <= scripts@.len(),
            descriptors_view(out@) == inline_blocking(sv.take(i as int)),
        decreases scripts@.len() - i,
    {
        let d = &scripts[i];
        proof {
            let t = sv.take(i + 1);
            assert(t.drop_last() =~= sv.take(i as int));
            assert(t.last() == descriptor_view(*d));
        }
        let ghost old_out = descriptors_view(out@);
        let inline = match &d.source {
            ScriptSource::Inline { .. } => true,
            ScriptSource::External { .. } => false,
        };
        if inline && d.execution == ScriptExecution::Blocking {
            out.push(copy_descriptor(d));
            proof {
                assert(descriptors_view(out@) =~= old_out.push(descriptor_view(*d)));
            }
        }
        i = i + 1;
    }
    proof {
        assert(sv.take(scripts@.len() as int) =~= sv);
    }
    out
}

/// The name under which an inline script is evaluated.
pub open spec fn inline_script_filename(index: nat) -> Seq<char> {
    "inline-script-"@ + decimal(index) + ".js"@
}

/// Builds the name under which an inline script is evaluated.
pub fn inline_script_name(index: usize) -> (r: String)
    ensures
        r@ == inline_script_filename(index as nat),
{
    let mut r = String::from_str("inline-script-");
    let d = decimal_string(index as u64);
    r.append(d.as_str());
    r.append(".js");
    r
}

} // verus!

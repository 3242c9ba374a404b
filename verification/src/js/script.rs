//! What is known of one `<script>` element.
use vstd::prelude::*;

verus! {

/// How a script is scheduled relative to HTML parsing.
#[derive(Debug, Clone, Copy, PartialEq, Eq, Structural)]
pub enum ScriptExecution {
    /// Classic scripts that run at once and block parsing.
    Blocking,
    /// `async` scripts, run as soon as they are loaded.
    Async,
    /// `defer` scripts, run after parsing and before `DOMContentLoaded`.
    Defer,
}

impl Default for ScriptExecution {
    fn default() -> (r: ScriptExecution)
        ensures
            r == ScriptExecution::Blocking,
    {
        ScriptExecution::Blocking
    }
}

/// The language of a script, as far as the page runtime cares.
#[derive(Debug, Clone, Copy, PartialEq, Eq, Structural)]
pub enum ScriptKind {
    /// Classic JavaScript.
    Classic,
    /// `<script type="module">`.
    Module,
    /// Any other type, kept for completeness.
    Unknown,
}

impl Default for ScriptKind {
    fn default() -> (r: ScriptKind)
        ensures
            r == ScriptKind::Classic,
    {
        ScriptKind::Classic
    }
}

/// Where a script's text comes from.
#[derive(Debug, Clone, PartialEq, Eq)]
pub enum ScriptSource {
    Inline { code: String },
    External { src: String },
}

/// Everything needed to run one script: its position among the document's script
/// elements, its kind, its scheduling and its source.
#[derive(Debug, Clone, PartialEq, Eq)]
pub struct ScriptDescriptor {
    pub index: usize,
    pub kind: ScriptKind,
    pub execution: ScriptExecution,
    pub source: ScriptSource,
}

impl ScriptDescriptor {
    /// An inline script; inline scripts always block.
    pub fn inline(index: usize, code: String, kind: ScriptKind) -> (r: ScriptDescriptor)
        ensures
            r.index == index,
            r.kind == kind,
            r.execution == ScriptExecution::Blocking,
            r.source matches ScriptSource::Inline { code: c } && c@ == code@,
    {
        ScriptDescriptor {
            index,
            kind,
            execution: ScriptExecution::Blocking,
            source: ScriptSource::Inline { code },
        }
    }
}

} // verus!

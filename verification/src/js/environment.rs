//! What a dispatched DOM event asks of the browser.
use vstd::prelude::*;

verus! {

/// The effect of handing an event to the page's listeners.
#[derive(Debug, Default, Clone, Copy, PartialEq, Eq, Structural)]
pub struct DispatchOutcome {
    pub default_prevented: bool,
    pub redraw_requested: bool,
    pub propagation_stopped: bool,
}

} // verus!

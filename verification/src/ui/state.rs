//! Transient interaction state of a widget.
use vstd::prelude::*;

verus! {

/// What the pointer is currently doing to a widget. It only feeds visual
/// feedback and never changes the widget's own data.
#[derive(Debug, Clone, Copy, PartialEq, Eq, Structural)]
pub struct State {
    /// Whether the pointer is over the widget.
    pub hovered: bool,
}

impl Default for State {
    fn default() -> (r: State)
        ensures
            r == (State { hovered: false }),
    {
        State { hovered: false }
    }
}

} // verus!

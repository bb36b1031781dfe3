//! Visual style of a widget.
use vstd::prelude::*;
use crate::ui::color::{white, ColorMode, ColorState};

verus! {

/// Fill color and corner rounding of a widget.
#[derive(Debug, Clone, Copy, PartialEq, Eq, Structural)]
pub struct Style {
    pub color: ColorState,
    pub radius: u32,
}

impl Style {
    /// Solid white without rounding.
    pub open spec fn plain() -> Style {
        Style { color: ColorState { color: white(), mode: ColorMode::Solid }, radius: 0 }
    }
}

impl Default for Style {
    fn default() -> (r: Style)
        ensures
            r == Style::plain(),
    {
        Style { color: ColorState { color: white(), mode: ColorMode::Solid }, radius: 0 }
    }
}

} // verus!

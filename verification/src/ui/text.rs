//! The text a widget shows.
use vstd::prelude::*;
use crate::scalar::Scalar;
use crate::ui::layout::Point;

verus! {

/// A label with its size and placement.
///
/// `extent` is the width and height the label takes when drawn at
/// `font_size`. It comes from the font that draws the label and has to
/// be brought up to date by whoever owns that font before layout is
/// resolved.
#[derive(Debug)]
pub struct Text {
    pub label: String,
    pub font_size: Scalar,
    pub pos: Point,
    pub extent: Point,
    pub valign: bool,
    pub halign: bool,
}

impl Text {
    /// The width and height the label takes when drawn.
    pub fn get_true_dimensions(&self) -> (extent: Point)
        ensures
            extent == self.extent,
    {
        self.extent
    }
}

impl Default for Text {
    fn default() -> (t: Text)
        ensures
            t.label@ == Seq::<char>::empty(),
            t.font_size == Scalar::spec_whole(12),
            t.pos == Point::origin(),
            t.extent == Point::origin(),
            !t.valign,
            !t.halign,
    {
        Text {
            label: String::new(),
            font_size: Scalar::whole(12),
            pos: Point { x: Scalar::zero(), y: Scalar::zero() },
            extent: Point { x: Scalar::zero(), y: Scalar::zero() },
            valign: false,
            halign: false,
        }
    }
}

} // verus!

//! Resizing a widget with the wheel.
use vstd::prelude::*;
use crate::action::Effect;
use crate::scalar::{Scalar, SCALE};
use crate::ui::event::{Event, ScrollDelta, WindowSize};
use crate::ui::layout::Layout;
use crate::ui::widget::BaseWidget;

verus! {

/// By how many units one line of the wheel resizes a widget.
#[derive(Debug, Clone, Copy, PartialEq, Eq, Structural)]
pub enum ZoomLevel {
    /// Two units per line.
    Zoom2x,
    /// Four units per line.
    Zoom4x,
    /// Eight units per line.
    Zoom8x,
    /// Sixteen units per line.
    Zoom16x,
}

impl Default for ZoomLevel {
    fn default() -> (z: ZoomLevel)
        ensures
            z == ZoomLevel::Zoom2x,
    {
        ZoomLevel::Zoom2x
    }
}

impl ZoomLevel {
    pub open spec fn spec_factor(self) -> i64 {
        match self {
            ZoomLevel::Zoom2x => 2,
            ZoomLevel::Zoom4x => 4,
            ZoomLevel::Zoom8x => 8,
            ZoomLevel::Zoom16x => 16,
        }
    }

    /// The number of units per line.
    #[verifier::when_used_as_spec(spec_factor)]
    pub fn factor(self) -> (f: i64)
        ensures
            f == self.spec_factor(),
    {
        match self {
            ZoomLevel::Zoom2x => 2,
            ZoomLevel::Zoom4x => 4,
            ZoomLevel::Zoom8x => 8,
            ZoomLevel::Zoom16x => 16,
        }
    }
}

/// Lets the wheel resize a widget.
///
/// With `steps` set, the size stays within a window around the size the
/// widget had when the wheel first turned. `lower_upper` keeps that
/// window as least height, greatest height, least width and greatest
/// width, in this order.
#[derive(Debug, Clone, Copy)]
pub struct Zoom {
    pub scale: ZoomLevel,
    pub steps: Option<u32>,
    pub lower_upper: Option<(Scalar, Scalar, Scalar, Scalar)>,
}

impl Zoom {
    /// A zoom without bounds.
    pub fn new(scale: ZoomLevel) -> (z: Zoom)
        ensures
            z == (Zoom { scale, steps: None, lower_upper: None }),
    {
        Zoom { scale, steps: None, lower_upper: None }
    }

    /// A zoom that stays within `steps` lines of the size at which it
    /// starts.
    pub fn new_with_bounds(scale: ZoomLevel, steps: u32) -> (z: Zoom)
        ensures
            z == (Zoom { scale, steps: Some(steps), lower_upper: None }),
    {
        Zoom { scale, steps: Some(steps), lower_upper: None }
    }

    /// How far `steps` lines reach, in units.
    pub open spec fn reach(scale: ZoomLevel, steps: u32) -> Scalar {
        Scalar { raw: (scale.spec_factor() * steps * SCALE) as i64 }
    }

    /// The window of sizes around `layout` for `steps` lines: each
    /// dimension may shrink to its distance from the reach and grow by
    /// the reach, but no further than the drawing area.
    pub open spec fn window_around(scale: ZoomLevel, steps: u32, layout: Layout, area: WindowSize) -> (
        Scalar,
        Scalar,
        Scalar,
        Scalar,
    ) {
        let reach = Zoom::reach(scale, steps);
        (
            layout.h.spec_minus(reach).spec_magnitude(),
            layout.h.spec_plus(reach).spec_least(Scalar::spec_units(area.height)),
            layout.w.spec_minus(reach).spec_magnitude(),
            layout.w.spec_plus(reach).spec_least(Scalar::spec_units(area.width)),
        )
    }

    /// The window of sizes in force once the wheel turns on a widget at
    /// `layout`: the one kept from before, else the one worked out now
    /// where `steps` is set, else none.
    pub open spec fn bounds(self, layout: Layout, area: WindowSize) -> Option<
        (Scalar, Scalar, Scalar, Scalar),
    > {
        match self.lower_upper {
            Some(kept) => Some(kept),
            None => match self.steps {
                Some(steps) => Some(Zoom::window_around(self.scale, steps, layout, area)),
                None => None,
            },
        }
    }

    /// The rectangle at `layout` after the wheel turned by `lines`:
    /// width and height both grow by `lines` times the factor and are
    /// then held within the window in force. The position stays.
    pub open spec fn resized(self, layout: Layout, lines: Scalar, area: WindowSize) -> Layout {
        let grown_w = layout.w.spec_plus(lines.spec_scaled(self.scale.spec_factor()));
        let grown_h = layout.h.spec_plus(lines.spec_scaled(self.scale.spec_factor()));
        match self.bounds(layout, area) {
            Some((min_h, max_h, min_w, max_w)) => Layout {
                w: grown_w.spec_within(min_w, max_w),
                h: grown_h.spec_within(min_h, max_h),
                ..layout
            },
            None => Layout { w: grown_w, h: grown_h, ..layout },
        }
    }

    /// By how many lines the event `e` turns the wheel up or down, if it
    /// does.
    pub open spec fn lines(e: Event) -> Option<Scalar> {
        match e {
            Event::MouseWheel { delta: ScrollDelta::Line(_, y) } => Some(y),
            _ => None,
        }
    }

    /// Lets the action see the event `e` for `widget`, in a window whose
    /// drawing area is `window`.
    ///
    /// A turn of the wheel counted in lines resizes the widget as
    /// [`Zoom::resized`] says, keeps the window of sizes for every later
    /// turn, and asks for the whole window to be painted anew. Every
    /// other event is ignored.
    pub fn apply(&mut self, window: WindowSize, widget: &mut BaseWidget, e: &Event) -> (effect: Option<
        Effect,
    >)
        ensures
            Zoom::lines(*e) matches Some(y) ==> {
                &&& *final(self) == (Zoom {
                    lower_upper: old(self).bounds(old(widget).layout, window),
                    ..*old(self)
                })
                &&& *final(widget) == old(widget).with_layout(
                    old(self).resized(old(widget).layout, y, window),
                )
                &&& effect == Some(Effect::Redraw)
            },
            Zoom::lines(*e) is None ==> {
                &&& *final(self) == *old(self)
                &&& *final(widget) == *old(widget)
                &&& effect is None
            },
    {
        match e {
            Event::MouseWheel { delta: ScrollDelta::Line(_, y) } => {
                let factor = self.scale.factor();
                let scaled_w = widget.layout.w.plus(y.scaled(factor));
                let scaled_h = widget.layout.h.plus(y.scaled(factor));
                if self.lower_upper.is_none() {
                    if let Some(steps) = self.steps {
                        let reach = Scalar::from_raw(factor * (steps as i64) * SCALE);
                        let min_h = widget.layout.h.minus(reach).magnitude();
                        let max_h = widget.layout.h.plus(reach).least(Scalar::units(window.height));
                        let min_w = widget.layout.w.minus(reach).magnitude();
                        let max_w = widget.layout.w.plus(reach).least(Scalar::units(window.width));
                        self.lower_upper = Some((min_h, max_h, min_w, max_w));
                    }
                }
                let (final_h, final_w) = match self.lower_upper {
                    Some((min_h, max_h, min_w, max_w)) => (
                        scaled_h.within(min_h, max_h),
                        scaled_w.within(min_w, max_w),
                    ),
                    None => (scaled_h, scaled_w),
                };
                widget.layout.w = final_w;
                widget.layout.h = final_h;
                Some(Effect::Redraw)
            },
            _ => None,
        }
    }
}

} // verus!

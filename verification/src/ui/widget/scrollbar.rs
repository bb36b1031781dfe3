//! The `ScrollBar` widget.
use vstd::prelude::*;
use crate::action::Action;
use crate::scalar::Scalar;
use crate::ui::color::{light_gray, ColorMode, ColorState};
use crate::ui::layout::Layout;
use crate::ui::style::Style;
use crate::ui::sync::Trigger;
use crate::ui::widget::{BaseWidget, EmitterId, Widget, WidgetNode};

verus! {

/// Thickness of a scrollbar, in raw steps: ten units.
pub const SCROLLBAR_SIZE: i64 = 655360;

/// Room kept free next to a scrollbar, in raw steps: five units.
pub const SCROLLBAR_BUFFER: i64 = 327680;

/// Length of a scrollbar that is not shown, in raw steps: one unit
/// below zero, so that no point lies on it.
pub const SCROLLBAR_HIDDEN: i64 = -65536;

/// The thumb of a scrollbar along one axis of a container.
///
/// Its `base.layout` is the rectangle of the thumb. `buffer` is the room
/// the bar keeps free at the end of its track.
#[derive(Debug)]
pub struct ScrollBar {
    pub base: BaseWidget,
    pub actions: Vec<Action>,
    pub emitter: Option<EmitterId>,
    pub trigger: Option<Trigger>,
    pub buffer: Scalar,
}

impl ScrollBar {
    /// What both kinds of new scrollbar share: a light gray thumb at
    /// the origin that is blank otherwise, no actions, no producer, no
    /// trigger, and room of five units at the end of the track.
    pub open spec fn is_fresh(&self) -> bool {
        &&& (BaseWidget { style: Style::plain(), layout: Layout::empty(), ..self.base }).is_blank()
        &&& self.base.style == Style {
            color: ColorState { color: light_gray(), mode: ColorMode::Solid },
            radius: 0,
        }
        &&& self.base.layout.x.raw == 0
        &&& self.base.layout.y.raw == 0
        &&& self.actions@.len() == 0
        &&& self.emitter is None
        &&& self.trigger is None
        &&& self.buffer.raw == SCROLLBAR_BUFFER
    }

    /// A scrollbar for the vertical axis: ten units wide and hidden
    /// until its container overflows.
    pub fn new_y() -> (bar: ScrollBar)
        ensures
            bar.is_fresh(),
            bar.base.layout.w.raw == SCROLLBAR_SIZE,
            bar.base.layout.h.raw == SCROLLBAR_HIDDEN,
    {
        let mut base = BaseWidget::default();
        base.layout.w = Scalar::from_raw(SCROLLBAR_SIZE);
        base.layout.h = Scalar::from_raw(SCROLLBAR_HIDDEN);
        base.style.color = ColorState::new(light_gray());
        ScrollBar {
            base,
            actions: Vec::new(),
            emitter: None,
            trigger: None,
            buffer: Scalar::from_raw(SCROLLBAR_BUFFER),
        }
    }

    /// A scrollbar for the horizontal axis: ten units high and hidden
    /// until its container overflows.
    pub fn new_x() -> (bar: ScrollBar)
        ensures
            bar.is_fresh(),
            bar.base.layout.h.raw == SCROLLBAR_SIZE,
            bar.base.layout.w.raw == SCROLLBAR_HIDDEN,
    {
        let mut base = BaseWidget::default();
        base.layout.h = Scalar::from_raw(SCROLLBAR_SIZE);
        base.layout.w = Scalar::from_raw(SCROLLBAR_HIDDEN);
        base.style.color = ColorState::new(light_gray());
        ScrollBar {
            base,
            actions: Vec::new(),
            emitter: None,
            trigger: None,
            buffer: Scalar::from_raw(SCROLLBAR_BUFFER),
        }
    }
}

impl Widget for ScrollBar {
    open spec fn node(self) -> WidgetNode {
        WidgetNode::ScrollBar(self)
    }

    fn into_node(self) -> (node: WidgetNode) {
        WidgetNode::ScrollBar(self)
    }

    fn base(&self) -> (base: &BaseWidget) {
        &self.base
    }

    fn base_mut(&mut self) -> (base: &mut BaseWidget) {
        &mut self.base
    }

    fn action_mut(&mut self) -> (actions: &mut Vec<Action>) {
        &mut self.actions
    }

    fn emitter(&self) -> (emitter: Option<EmitterId>) {
        self.emitter
    }

    fn connect(self, emitter: EmitterId) -> (widget: Self) {
        let mut widget = self;
        widget.emitter = Some(emitter);
        widget
    }

    fn internal_trigger(&self) -> (trigger: Option<Trigger>) {
        self.trigger
    }
}

} // verus!

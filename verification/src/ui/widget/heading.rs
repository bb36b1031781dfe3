//! The `Heading` widget.
use vstd::prelude::*;
use crate::action::Action;
use crate::scalar::Scalar;
use crate::ui::text::Text;
use crate::ui::sync::Trigger;
use crate::ui::widget::{BaseWidget, EmitterId, Widget, WidgetNode};

verus! {

/// A heading above a section.
#[derive(Debug)]
pub struct Heading {
    pub base: BaseWidget,
    pub actions: Vec<Action>,
    pub emitter: Option<EmitterId>,
    pub trigger: Option<Trigger>,
}

impl Heading {
    /// A blank widget: no actions, no producer, not yet in a tree.
    pub fn new() -> (w: Heading)
        ensures
            w.base.is_blank(),
            w.actions@.len() == 0,
            w.emitter is None,
            w.trigger is None,
    {
        Heading { base: BaseWidget::default(), actions: Vec::new(), emitter: None, trigger: None }
    }
}

impl Heading {
    /// The heading with text of size `size`.
    pub open spec fn sized(self, size: Scalar) -> Heading {
        Heading {
            base: BaseWidget { text: Text { font_size: size, ..self.base.text }, ..self.base },
            ..self
        }
    }

    /// Makes the heading large: text of size 32.
    pub fn set_large_heading(self) -> (heading: Heading)
        ensures
            heading == self.sized(Scalar::spec_whole(32)),
    {
        let mut heading = self;
        heading.base.text.font_size = Scalar::whole(32);
        heading
    }

    /// Makes the heading of medium size: text of size 24.
    pub fn set_medium_heading(self) -> (heading: Heading)
        ensures
            heading == self.sized(Scalar::spec_whole(24)),
    {
        let mut heading = self;
        heading.base.text.font_size = Scalar::whole(24);
        heading
    }

    /// Makes the heading small: text of size 18.
    pub fn set_small_heading(self) -> (heading: Heading)
        ensures
            heading == self.sized(Scalar::spec_whole(18)),
    {
        let mut heading = self;
        heading.base.text.font_size = Scalar::whole(18);
        heading
    }
}

impl Widget for Heading {
    open spec fn node(self) -> WidgetNode {
        WidgetNode::Heading(self)
    }

    fn into_node(self) -> (node: WidgetNode) {
        WidgetNode::Heading(self)
    }

    fn base(&self) -> (base: &BaseWidget) {
        &self.base
    }

    fn base_mut(&mut self) -> (base: &mut BaseWidget) {
        &mut self.base
    }

    fn action_mut(&mut self) -> (actions: &mut Vec<Action>) {
        &mut self.actions
    }

    fn emitter(&self) -> (emitter: Option<EmitterId>) {
        self.emitter
    }

    fn connect(self, emitter: EmitterId) -> (widget: Self) {
        let mut widget = self;
        widget.emitter = Some(emitter);
        widget
    }

    fn internal_trigger(&self) -> (trigger: Option<Trigger>) {
        self.trigger
    }
}

} // verus!

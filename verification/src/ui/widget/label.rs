//! The `Label` widget.
use vstd::prelude::*;
use crate::action::Action;
use crate::ui::sync::Trigger;
use crate::ui::widget::{BaseWidget, EmitterId, Widget, WidgetNode};

verus! {

/// A piece of text.
#[derive(Debug)]
pub struct Label {
    pub base: BaseWidget,
    pub actions: Vec<Action>,
    pub emitter: Option<EmitterId>,
    pub trigger: Option<Trigger>,
}

impl Label {
    /// A blank widget: no actions, no producer, not yet in a tree.
    pub fn new() -> (w: Label)
        ensures
            w.base.is_blank(),
            w.actions@.len() == 0,
            w.emitter is None,
            w.trigger is None,
    {
        Label { base: BaseWidget::default(), actions: Vec::new(), emitter: None, trigger: None }
    }
}

impl Widget for Label {
    open spec fn node(self) -> WidgetNode {
        WidgetNode::Label(self)
    }

    fn into_node(self) -> (node: WidgetNode) {
        WidgetNode::Label(self)
    }

    fn base(&self) -> (base: &BaseWidget) {
        &self.base
    }

    fn base_mut(&mut self) -> (base: &mut BaseWidget) {
        &mut self.base
    }

    fn action_mut(&mut self) -> (actions: &mut Vec<Action>) {
        &mut self.actions
    }

    fn emitter(&self) -> (emitter: Option<EmitterId>) {
        self.emitter
    }

    fn connect(self, emitter: EmitterId) -> (widget: Self) {
        let mut widget = self;
        widget.emitter = Some(emitter);
        widget
    }

    fn internal_trigger(&self) -> (trigger: Option<Trigger>) {
        self.trigger
    }
}

} // verus!

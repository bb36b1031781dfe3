//! The `Cell` widget.
use vstd::prelude::*;
use crate::action::Action;
use crate::ui::sync::Trigger;
use crate::ui::widget::{BaseWidget, EmitterId, Widget, WidgetNode};

verus! {

/// One field of a canvas grid.
#[derive(Debug)]
pub struct Cell {
    pub base: BaseWidget,
    pub actions: Vec<Action>,
    pub emitter: Option<EmitterId>,
    pub trigger: Option<Trigger>,
}

impl Cell {
    /// Whether nothing has been set on the cell yet.
    pub open spec fn is_blank(&self) -> bool {
        &&& self.base.is_blank()
        &&& self.actions@.len() == 0
        &&& self.emitter is None
        &&& self.trigger is None
    }

    /// A blank widget: no actions, no producer, not yet in a tree.
    pub fn new() -> (w: Cell)
        ensures
            w.is_blank(),
    {
        Cell { base: BaseWidget::default(), actions: Vec::new(), emitter: None, trigger: None }
    }
}

impl Widget for Cell {
    open spec fn node(self) -> WidgetNode {
        WidgetNode::Cell(self)
    }

    fn into_node(self) -> (node: WidgetNode) {
        WidgetNode::Cell(self)
    }

    fn base(&self) -> (base: &BaseWidget) {
        &self.base
    }

    fn base_mut(&mut self) -> (base: &mut BaseWidget) {
        &mut self.base
    }

    fn action_mut(&mut self) -> (actions: &mut Vec<Action>) {
        &mut self.actions
    }

    fn emitter(&self) -> (emitter: Option<EmitterId>) {
        self.emitter
    }

    fn connect(self, emitter: EmitterId) -> (widget: Self) {
        let mut widget = self;
        widget.emitter = Some(emitter);
        widget
    }

    fn internal_trigger(&self) -> (trigger: Option<Trigger>) {
        self.trigger
    }
}

} // verus!

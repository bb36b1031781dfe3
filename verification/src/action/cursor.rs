//! Reaction to pointer movement.
use vstd::prelude::*;
use crate::action::click::pointer_tracked;
use crate::action::{CallbackId, Effect};
use crate::ui::event::Event;
use crate::ui::sync::Trigger;
use crate::ui::widget::BaseWidget;

verus! {

/// Calls back whenever the pointer moves over a widget.
///
/// The application keeps the callback itself; here it goes by its
/// [`CallbackId`].
#[derive(Debug, Clone, Copy, PartialEq, Eq, Structural)]
pub struct CursorMove {
    pub handler: CallbackId,
}

impl CursorMove {
    pub fn new(callback: CallbackId) -> (action: CursorMove)
        ensures
            action.handler == callback,
    {
        CursorMove { handler: callback }
    }

    /// Whether the event `e` is a cursor movement that ends on `widget`.
    pub open spec fn lands_on(widget: BaseWidget, e: Event) -> bool {
        e matches Event::CursorMoved { position } && widget.layout.spec_is_inbounds(
            position.x,
            position.y,
        )
    }

    /// Lets the action see the event `e` for `widget`.
    ///
    /// A cursor movement updates the widget's hover flag and, where it
    /// ends on the widget, yields the call of the callback, whatever the
    /// buttons do. Every other event is ignored.
    pub fn apply(&self, trigger: &Trigger, widget: &mut BaseWidget, e: &Event) -> (effect: Option<
        Effect,
    >)
        ensures
            *final(widget) == pointer_tracked(*old(widget), *e),
            effect == (if CursorMove::lands_on(*old(widget), *e) {
                Some(Effect::Invoke(*trigger, self.handler))
            } else {
                None
            }),
    {
        match e {
            Event::CursorMoved { position } => {
                widget.state.hovered = widget.layout.is_inbounds(position.x, position.y);
                if widget.state.hovered {
                    Some(Effect::Invoke(*trigger, self.handler))
                } else {
                    None
                }
            },
            _ => None,
        }
    }
}

} // verus!

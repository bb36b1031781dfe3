//! Reaction to mouse buttons.
use vstd::prelude::*;
use crate::action::{CallbackId, Effect};
use crate::ui::event::{ElementState, Event, PointerButton};
use crate::ui::state::State;
use crate::ui::sync::Trigger;
use crate::ui::widget::BaseWidget;

verus! {

/// A mouse button together with what happened to it. The variants
/// without `Release` stand for the button going down.
#[derive(Debug, Clone, Copy, PartialEq, Eq, PartialOrd, Ord, Hash, Structural)]
pub enum MouseButton {
    LeftButtonRelease,
    LeftButton,
    RightButtonRelease,
    RightButton,
    MiddleButtonRelease,
    MiddleButton,
    ForwardButtonRelease,
    ForwardButton,
    BackButtonRelease,
    BackButton,
    OtherButtonReleased(u16),
    OtherButton(u16),
}

impl MouseButton {
    /// The button event that `button` in `state` makes.
    pub open spec fn spec_from_input(button: PointerButton, state: ElementState) -> MouseButton {
        match (button, state) {
            (PointerButton::Left, ElementState::Pressed) => MouseButton::LeftButton,
            (PointerButton::Left, ElementState::Released) => MouseButton::LeftButtonRelease,
            (PointerButton::Right, ElementState::Pressed) => MouseButton::RightButton,
            (PointerButton::Right, ElementState::Released) => MouseButton::RightButtonRelease,
            (PointerButton::Middle, ElementState::Pressed) => MouseButton::MiddleButton,
            (PointerButton::Middle, ElementState::Released) => MouseButton::MiddleButtonRelease,
            (PointerButton::Back, ElementState::Pressed) => MouseButton::BackButton,
            (PointerButton::Back, ElementState::Released) => MouseButton::BackButtonRelease,
            (PointerButton::Forward, ElementState::Pressed) => MouseButton::ForwardButton,
            (PointerButton::Forward, ElementState::Released) => MouseButton::ForwardButtonRelease,
            (PointerButton::Other(v), ElementState::Pressed) => MouseButton::OtherButton(v),
            (PointerButton::Other(v), ElementState::Released) => MouseButton::OtherButtonReleased(v),
        }
    }

    /// The button event that `button` in `state` makes.
    #[verifier::when_used_as_spec(spec_from_input)]
    pub fn from_input(button: PointerButton, state: ElementState) -> (b: MouseButton)
        ensures
            b == MouseButton::spec_from_input(button, state),
    {
        match (button, state) {
            (PointerButton::Left, ElementState::Pressed) => MouseButton::LeftButton,
            (PointerButton::Left, ElementState::Released) => MouseButton::LeftButtonRelease,
            (PointerButton::Right, ElementState::Pressed) => MouseButton::RightButton,
            (PointerButton::Right, ElementState::Released) => MouseButton::RightButtonRelease,
            (PointerButton::Middle, ElementState::Pressed) => MouseButton::MiddleButton,
            (PointerButton::Middle, ElementState::Released) => MouseButton::MiddleButtonRelease,
            (PointerButton::Back, ElementState::Pressed) => MouseButton::BackButton,
            (PointerButton::Back, ElementState::Released) => MouseButton::BackButtonRelease,
            (PointerButton::Forward, ElementState::Pressed) => MouseButton::ForwardButton,
            (PointerButton::Forward, ElementState::Released) => MouseButton::ForwardButtonRelease,
            (PointerButton::Other(v), ElementState::Pressed) => MouseButton::OtherButton(v),
            (PointerButton::Other(v), ElementState::Released) => MouseButton::OtherButtonReleased(v),
        }
    }
}

/// The map that a list of registrations amounts to: a later entry for a
/// button replaces an earlier one.
pub open spec fn bindings(entries: Seq<(MouseButton, CallbackId)>) -> Map<MouseButton, CallbackId>
    decreases entries.len(),
{
    if entries.len() == 0 {
        Map::empty()
    } else {
        bindings(entries.drop_last()).insert(entries.last().0, entries.last().1)
    }
}

/// The first `i` registrations amount to the first `i - 1` of them with
/// the `i`-th put on top.
pub proof fn lemma_bindings_prefix(entries: Seq<(MouseButton, CallbackId)>, i: int)
    requires
        0 < i <= entries.len(),
    ensures
        bindings(entries.subrange(0, i)) == bindings(entries.subrange(0, i - 1)).insert(
            entries[i - 1].0,
            entries[i - 1].1,
        ),
{
    assert(entries.subrange(0, i).drop_last() =~= entries.subrange(0, i - 1));
}

/// The widget once it has taken note of where the pointer is: a
/// cursor movement sets its hover flag by a hit test, any other event
/// leaves it as it is.
pub open spec fn pointer_tracked(widget: BaseWidget, e: Event) -> BaseWidget {
    match e {
        Event::CursorMoved { position } => BaseWidget {
            state: State { hovered: widget.layout.spec_is_inbounds(position.x, position.y) },
            ..widget
        },
        _ => widget,
    }
}

/// Calls back when buttons are pressed or released over a widget.
///
/// Callbacks are registered per button event. The application keeps the
/// callbacks themselves; here they go by their [`CallbackId`].
#[derive(Debug)]
pub struct Click {
    pub button_map: Vec<(MouseButton, CallbackId)>,
}

impl Click {
    /// The callback registered for each button event.
    pub open spec fn handlers(&self) -> Map<MouseButton, CallbackId> {
        bindings(self.button_map@)
    }

    /// The callback that the event `e` calls on `widget`, if any: the one
    /// registered for the button event, provided the pointer is over the
    /// widget.
    pub open spec fn invoked(&self, widget: BaseWidget, e: Event) -> Option<CallbackId> {
        match e {
            Event::MouseInput { button, state } => {
                let pressed = MouseButton::spec_from_input(button, state);
                if widget.state.hovered && self.handlers().contains_key(pressed) {
                    Some(self.handlers()[pressed])
                } else {
                    None
                }
            },
            _ => None,
        }
    }

    /// A click action without callbacks.
    pub fn new() -> (click: Click)
        ensures
            click.handlers() == Map::<MouseButton, CallbackId>::empty(),
    {
        Click { button_map: Vec::new() }
    }

    /// Registers `callback` for the button event `btn`, in place of any
    /// callback registered for it before.
    pub fn on(self, btn: MouseButton, callback: CallbackId) -> (click: Click)
        ensures
            click.handlers() == self.handlers().insert(btn, callback),
    {
        let mut click = self;
        click.button_map.push((btn, callback));
        proof {
            assert(click.button_map@.drop_last() =~= self.button_map@);
        }
        click
    }

    /// A click action with the same registrations.
    pub fn duplicate(&self) -> (copy: Click)
        ensures
            copy.button_map@ == self.button_map@,
    {
        let mut entries: Vec<(MouseButton, CallbackId)> = Vec::new();
        let mut i: usize = 0;
        while i < self.button_map.len()
            invariant
                i <= self.button_map.len(),
                entries@ == self.button_map@.subrange(0, i as int),
            decreases self.button_map.len() - i,
        {
            let entry = self.button_map[i];
            entries.push(entry);
            i = i + 1;
        }
        Click { button_map: entries }
    }

    /// The callback registered for `btn`, if there is one.
    pub fn registered(&self, btn: MouseButton) -> (found: Option<CallbackId>)
        ensures
            found == (if self.handlers().contains_key(btn) {
                Some(self.handlers()[btn])
            } else {
                None
            }),
    {
        let mut i: usize = self.button_map.len();
        proof {
            assert(self.button_map@.subrange(0, i as int) =~= self.button_map@);
        }
        while i > 0
            invariant
                i <= self.button_map.len(),
                self.handlers().contains_key(btn) == bindings(
                    self.button_map@.subrange(0, i as int),
                ).contains_key(btn),
                self.handlers().contains_key(btn) ==> self.handlers()[btn] == bindings(
                    self.button_map@.subrange(0, i as int),
                )[btn],
            decreases i,
        {
            proof {
                lemma_bindings_prefix(self.button_map@, i as int);
            }
            i = i - 1;
            if self.button_map[i].0 == btn {
                return Some(self.button_map[i].1);
            }
        }
        None
    }

    /// Lets the action see the event `e` for `widget`.
    ///
    /// A cursor movement only updates the widget's hover flag. A button
    /// event over a hovered widget yields the call of the callback
    /// registered for exactly that button event; without such a callback,
    /// and on every other event, nothing happens.
    pub fn apply(&self, trigger: &Trigger, widget: &mut BaseWidget, e: &Event) -> (effect: Option<
        Effect,
    >)
        ensures
            *final(widget) == pointer_tracked(*old(widget), *e),
            effect == match self.invoked(*old(widget), *e) {
                Some(callback) => Some(Effect::Invoke(*trigger, callback)),
                None => None,
            },
    {
        match e {
            Event::CursorMoved { position } => {
                widget.state.hovered = widget.layout.is_inbounds(position.x, position.y);
                None
            },
            Event::MouseInput { button, state } => {
                let pressed = MouseButton::from_input(*button, *state);
                if widget.state.hovered {
                    match self.registered(pressed) {
                        Some(callback) => Some(Effect::Invoke(*trigger, callback)),
                        None => None,
                    }
                } else {
                    None
                }
            },
            _ => None,
        }
    }
}

/// Clicks are dispatched exactly.
///
/// A button event leaves the widget as it is. Over a hovered widget it
/// calls the callback registered last for exactly that button event and
/// no other: registering `callback` for `btn` changes what `btn` calls
/// and nothing else. Off the widget, and for a button event that has no
/// callback, it calls nothing.
pub proof fn lemma_click_dispatch(
    before: Click,
    after: Click,
    btn: MouseButton,
    callback: CallbackId,
    widget: BaseWidget,
    button: PointerButton,
    state: ElementState,
)
    requires
        after.handlers() == before.handlers().insert(btn, callback),
    ensures
        pointer_tracked(widget, Event::MouseInput { button, state }) == widget,
        !widget.state.hovered ==> after.invoked(widget, Event::MouseInput { button, state }) is None,
        widget.state.hovered && MouseButton::spec_from_input(button, state) == btn ==> after.invoked(
            widget,
            Event::MouseInput { button, state },
        ) == Some(callback),
        MouseButton::spec_from_input(button, state) != btn ==> after.invoked(
            widget,
            Event::MouseInput { button, state },
        ) == before.invoked(widget, Event::MouseInput { button, state }),
        !before.handlers().contains_key(MouseButton::spec_from_input(button, state))
            ==> before.invoked(widget, Event::MouseInput { button, state }) is None,
{
}

} // verus!

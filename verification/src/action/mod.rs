//! Behaviors that widgets show in response to input.
//!
//! An [`Action`] is attached to a widget and is offered every event the
//! widget sees. It may change the widget and may hand back an
//! [`Effect`] for the application to carry out. Actions do not consume
//! events: every action of a widget sees every event.
use vstd::prelude::*;
use crate::action::click::{pointer_tracked, Click};
use crate::action::cursor::CursorMove;
use crate::action::hover::Hover;
use crate::action::scroll::{shifted, Scroll};
use crate::action::zoom::Zoom;
use crate::ui::event::{Event, WindowSize};
use crate::ui::layout::Point;
use crate::ui::sync::{Signal, Trigger};
use crate::ui::widget::scrollbar::ScrollBar;
use crate::ui::widget::{BaseWidget, WidgetNode};

pub mod click;
pub mod cursor;
pub mod hover;
pub mod scroll;
pub mod zoom;

verus! {

/// Names a callback that the application keeps.
pub type CallbackId = usize;

/// What an action asks the application to do once it has seen an event.
#[derive(Debug)]
pub enum Effect {
    /// Put the signal into the queue of the thread that owns the
    /// widgets.
    Send(Signal),
    /// Call the callback for the widget that the trigger names.
    Invoke(Trigger, CallbackId),
    /// Paint the whole window anew.
    Redraw,
}

/// A behavior attached to a widget.
#[derive(Debug)]
pub enum Action {
    /// Shows another color while the pointer is over the widget.
    Hover(Hover),
    /// Calls back on button events over the widget.
    Click(Click),
    /// Calls back on pointer movement over the widget.
    CursorMove(CursorMove),
    /// Lets a container be scrolled by its scrollbars.
    Scroll(Scroll),
    /// Lets the wheel make the widget larger and smaller.
    ZoomInOut(Zoom),
}

/// The parts of a widget that actions may touch: its common record and,
/// for a container, its scrollbars and its children.
#[verifier::ext_equal]
pub struct Parts {
    pub base: BaseWidget,
    pub bars: Option<(ScrollBar, ScrollBar)>,
    pub children: Seq<WidgetNode>,
}

impl Action {
    /// What becomes of the action and of the parts of its widget when
    /// the action sees the event `e`, and what it asks for.
    ///
    /// `cursor` is where the pointer was last seen and `window` the size
    /// of the drawing area. Each kind of action behaves as its own type
    /// says; a scroll action leaves a widget without scrollbars alone.
    pub open spec fn act(
        self,
        trigger: Trigger,
        parts: Parts,
        e: Event,
        cursor: Point,
        window: WindowSize,
    ) -> (Action, Parts, Option<Effect>) {
        match self {
            Action::Hover(hover) => (
                self,
                Parts { base: hover.step(parts.base, e), ..parts },
                if Hover::crosses(parts.base, e) {
                    Some(Effect::Send(Signal::Update(trigger.uid)))
                } else {
                    None
                },
            ),
            Action::Click(click) => (
                self,
                Parts { base: pointer_tracked(parts.base, e), ..parts },
                match click.invoked(parts.base, e) {
                    Some(callback) => Some(Effect::Invoke(trigger, callback)),
                    None => None,
                },
            ),
            Action::CursorMove(moved) => (
                self,
                Parts { base: pointer_tracked(parts.base, e), ..parts },
                if CursorMove::lands_on(parts.base, e) {
                    Some(Effect::Invoke(trigger, moved.handler))
                } else {
                    None
                },
            ),
            Action::Scroll(scroll) => match parts.bars {
                Some(bars) => (
                    Action::Scroll(scroll.next(parts.base, bars, parts.children, e, cursor)),
                    Parts {
                        base: parts.base,
                        bars: Some(scroll.next_bars(parts.base, bars, e)),
                        children: Seq::new(
                            parts.children.len(),
                            |i: int|
                                shifted(
                                    parts.children[i],
                                    scroll.next_offset(
                                        parts.base,
                                        e,
                                        parts.children[i].spec_base().offset,
                                    ),
                                ),
                        ),
                    },
                    if scroll.drags(e) {
                        Some(Effect::Send(Signal::Update(trigger.uid)))
                    } else {
                        None
                    },
                ),
                None => (self, parts, None),
            },
            Action::ZoomInOut(zoom) => match Zoom::lines(e) {
                Some(y) => (
                    Action::ZoomInOut(
                        Zoom { lower_upper: zoom.bounds(parts.base.layout, window), ..zoom },
                    ),
                    Parts {
                        base: parts.base.with_layout(zoom.resized(parts.base.layout, y, window)),
                        ..parts
                    },
                    Some(Effect::Redraw),
                ),
                None => (self, parts, None),
            },
        }
    }

    /// Whether `other` is an action of the same kind that behaves as
    /// this one does: a click action with the same registrations in the
    /// same order, any other action with the same fields.
    pub open spec fn alike(&self, other: Action) -> bool {
        match (*self, other) {
            (Action::Hover(a), Action::Hover(b)) => a == b,
            (Action::Click(a), Action::Click(b)) => a.button_map@ == b.button_map@,
            (Action::CursorMove(a), Action::CursorMove(b)) => a == b,
            (Action::Scroll(a), Action::Scroll(b)) => a == b,
            (Action::ZoomInOut(a), Action::ZoomInOut(b)) => a == b,
            _ => false,
        }
    }

    /// A copy of the action.
    pub fn duplicate(&self) -> (copy: Action)
        ensures
            self.alike(copy),
    {
        match self {
            Action::Hover(hover) => Action::Hover(*hover),
            Action::Click(click) => Action::Click(click.duplicate()),
            Action::CursorMove(moved) => Action::CursorMove(*moved),
            Action::Scroll(scroll) => Action::Scroll(*scroll),
            Action::ZoomInOut(zoom) => Action::ZoomInOut(*zoom),
        }
    }

    /// Lets the action see the event `event` for the widget that
    /// `trigger` names and whose parts are `base`, `scrollbar` and
    /// `children`. What happens is what [`Action::act`] says.
    pub fn apply_action(
        &mut self,
        trigger: &Trigger,
        base: &mut BaseWidget,
        scrollbar: &mut Option<(ScrollBar, ScrollBar)>,
        children: &mut Vec<WidgetNode>,
        event: &Event,
        cursor_pos: Point,
        window: WindowSize,
    ) -> (effect: Option<Effect>)
        ensures
            ({
                let after = old(self).act(
                    *trigger,
                    Parts { base: *old(base), bars: *old(scrollbar), children: old(children)@ },
                    *event,
                    cursor_pos,
                    window,
                );
                &&& *final(self) == after.0
                &&& *final(base) == after.1.base
                &&& *final(scrollbar) == after.1.bars
                &&& final(children)@ == after.1.children
                &&& effect == after.2
            }),
    {
        match self {
            Action::Hover(hover) => hover.apply(trigger, base, event),
            Action::Click(click) => click.apply(trigger, base, event),
            Action::CursorMove(moved) => moved.apply(trigger, base, event),
            Action::Scroll(scroll) => scroll.apply(trigger, base, scrollbar, children, event, cursor_pos),
            Action::ZoomInOut(zoom) => zoom.apply(window, base, event),
        }
    }
}

/// The parts of a widget once the first `k` of its actions have seen
/// the event `e`, one after the other.
pub open spec fn seen(
    actions: Seq<Action>,
    trigger: Trigger,
    parts: Parts,
    e: Event,
    cursor: Point,
    window: WindowSize,
    k: int,
) -> Parts
    decreases k,
{
    if k <= 0 {
        parts
    } else {
        actions[k - 1].act(
            trigger,
            seen(actions, trigger, parts, e, cursor, window, k - 1),
            e,
            cursor,
            window,
        ).1
    }
}

/// What the action with number `k` of a widget becomes when the actions
/// of the widget see the event `e`, one after the other.
pub open spec fn acted(
    actions: Seq<Action>,
    trigger: Trigger,
    parts: Parts,
    e: Event,
    cursor: Point,
    window: WindowSize,
    k: int,
) -> Action {
    actions[k].act(trigger, seen(actions, trigger, parts, e, cursor, window, k), e, cursor, window).0
}

/// What the first `k` actions of a widget ask for when they see the
/// event `e`, one after the other.
pub open spec fn asked(
    actions: Seq<Action>,
    trigger: Trigger,
    parts: Parts,
    e: Event,
    cursor: Point,
    window: WindowSize,
    k: int,
) -> Seq<Effect>
    decreases k,
{
    if k <= 0 {
        Seq::empty()
    } else {
        let before = asked(actions, trigger, parts, e, cursor, window, k - 1);
        match actions[k - 1].act(
            trigger,
            seen(actions, trigger, parts, e, cursor, window, k - 1),
            e,
            cursor,
            window,
        ).2 {
            Some(effect) => before.push(effect),
            None => before,
        }
    }
}

/// Whether `after` are the actions `before` once each has seen the
/// event `e` in its turn.
pub open spec fn all_acted(
    before: Seq<Action>,
    after: Seq<Action>,
    trigger: Trigger,
    parts: Parts,
    e: Event,
    cursor: Point,
    window: WindowSize,
) -> bool {
    &&& after.len() == before.len()
    &&& forall|k: int|
        0 <= k < before.len() ==> #[trigger] after[k] == acted(
            before,
            trigger,
            parts,
            e,
            cursor,
            window,
            k,
        )
}

/// Offers the event `event` to each of `actions` in their order, for
/// the widget that `trigger` names and whose parts are `base`,
/// `scrollbar` and `children`. What the actions ask for is put behind
/// what `effects` holds.
#[verifier::rlimit(50)]
pub fn offer_event(
    actions: &mut Vec<Action>,
    trigger: &Trigger,
    base: &mut BaseWidget,
    scrollbar: &mut Option<(ScrollBar, ScrollBar)>,
    children: &mut Vec<WidgetNode>,
    event: &Event,
    cursor_pos: Point,
    window: WindowSize,
    effects: &mut Vec<Effect>,
)
    ensures
        ({
            let parts = Parts { base: *old(base), bars: *old(scrollbar), children: old(children)@ };
            let n = old(actions)@.len() as int;
            let end = seen(old(actions)@, *trigger, parts, *event, cursor_pos, window, n);
            &&& all_acted(old(actions)@, final(actions)@, *trigger, parts, *event, cursor_pos, window)
            &&& *final(base) == end.base
            &&& *final(scrollbar) == end.bars
            &&& final(children)@ == end.children
            &&& final(effects)@ == old(effects)@ + asked(
                old(actions)@,
                *trigger,
                parts,
                *event,
                cursor_pos,
                window,
                n,
            )
        }),
{
    let ghost parts = Parts { base: *old(base), bars: *old(scrollbar), children: old(children)@ };
    let n = actions.len();
    let mut i: usize = 0;
    while i < n
        invariant
            i <= n,
            n == actions@.len(),
            n == old(actions)@.len(),
            parts == (Parts { base: *old(base), bars: *old(scrollbar), children: old(children)@ }),
            forall|k: int|
                0 <= k < i ==> #[trigger] actions@[k] == acted(
                    old(actions)@,
                    *trigger,
                    parts,
                    *event,
                    cursor_pos,
                    window,
                    k,
                ),
            forall|k: int| i <= k < n ==> #[trigger] actions@[k] == old(actions)@[k],
            *base == seen(old(actions)@, *trigger, parts, *event, cursor_pos, window, i as int).base,
            *scrollbar == seen(
                old(actions)@,
                *trigger,
                parts,
                *event,
                cursor_pos,
                window,
                i as int,
            ).bars,
            children@ == seen(
                old(actions)@,
                *trigger,
                parts,
                *event,
                cursor_pos,
                window,
                i as int,
            ).children,
            effects@ == old(effects)@ + asked(
                old(actions)@,
                *trigger,
                parts,
                *event,
                cursor_pos,
                window,
                i as int,
            ),
        decreases n - i,
    {
        let ghost here = seen(old(actions)@, *trigger, parts, *event, cursor_pos, window, i as int);
        assert(here == (Parts { base: *base, bars: *scrollbar, children: children@ }));
        let effect = actions[i].apply_action(
            trigger,
            base,
            scrollbar,
            children,
            event,
            cursor_pos,
            window,
        );
        match effect {
            Some(effect) => {
                effects.push(effect);
            },
            None => {},
        }
        i = i + 1;
    }
}

/// The actions of a widget touch nothing of its children but their
/// scroll shift.
pub proof fn lemma_seen_children(
    actions: Seq<Action>,
    trigger: Trigger,
    parts: Parts,
    e: Event,
    cursor: Point,
    window: WindowSize,
    k: int,
)
    ensures
        ({
            let end = seen(actions, trigger, parts, e, cursor, window, k);
            &&& end.children.len() == parts.children.len()
            &&& forall|i: int|
                0 <= i < parts.children.len() ==> #[trigger] end.children[i] == shifted(
                    parts.children[i],
                    end.children[i].spec_base().offset,
                )
        }),
    decreases k,
{
    if k > 0 {
        lemma_seen_children(actions, trigger, parts, e, cursor, window, k - 1);
        let before = seen(actions, trigger, parts, e, cursor, window, k - 1);
        let end = seen(actions, trigger, parts, e, cursor, window, k);
        assert forall|i: int| 0 <= i < parts.children.len() implies #[trigger] end.children[i]
            == shifted(parts.children[i], end.children[i].spec_base().offset) by {
            assert(before.children[i] == shifted(
                parts.children[i],
                before.children[i].spec_base().offset,
            ));
        }
    } else {
        assert forall|i: int| 0 <= i < parts.children.len() implies #[trigger] parts.children[i]
            == shifted(parts.children[i], parts.children[i].spec_base().offset) by {
            crate::action::scroll::lemma_shifted_same(parts.children[i]);
        }
    }
}

} // verus!

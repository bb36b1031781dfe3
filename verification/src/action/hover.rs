//! Color feedback while the pointer is over a widget.
use vstd::prelude::*;
use crate::action::Effect;
use crate::ui::color::{Color, ColorMode, ColorState};
use crate::ui::event::Event;
use crate::ui::layout::Point;
use crate::ui::state::State;
use crate::ui::style::Style;
use crate::ui::sync::{Signal, Trigger};
use crate::ui::widget::BaseWidget;

verus! {

/// Lays `hover_color` over a widget's color while the pointer is on it.
#[derive(Debug, Clone, Copy, PartialEq, Eq, Hash, Structural)]
pub struct Hover {
    pub hover_color: Color,
}

impl Hover {
    pub fn new(color: Color) -> (h: Hover)
        ensures
            h.hover_color == color,
    {
        Hover { hover_color: color }
    }

    /// Whether the event `e` moves the pointer onto `widget` or off it.
    pub open spec fn crosses(widget: BaseWidget, e: Event) -> bool {
        e matches Event::CursorMoved { position } && widget.state.hovered
            != widget.layout.spec_is_inbounds(position.x, position.y)
    }

    /// The widget after the event `e`.
    ///
    /// Where the pointer comes onto the widget, the hover color is laid
    /// over the base color; where it leaves, the base color is shown
    /// solid again. The base color itself never changes, and a movement
    /// that stays on the widget or stays off it changes nothing.
    pub open spec fn step(&self, widget: BaseWidget, e: Event) -> BaseWidget {
        if Hover::crosses(widget, e) {
            let entering = !widget.state.hovered;
            BaseWidget {
                state: State { hovered: entering },
                style: Style {
                    color: ColorState {
                        color: widget.style.color.color,
                        mode: if entering {
                            ColorMode::Overlay(self.hover_color)
                        } else {
                            ColorMode::Solid
                        },
                    },
                    ..widget.style
                },
                ..widget
            }
        } else {
            widget
        }
    }

    /// Lets the action see the event `e` for `widget`.
    ///
    /// The widget changes, and a repaint of it is requested, exactly when
    /// the pointer crosses its border.
    pub fn apply(&self, trigger: &Trigger, widget: &mut BaseWidget, e: &Event) -> (effect: Option<
        Effect,
    >)
        ensures
            *final(widget) == self.step(*old(widget), *e),
            effect == (if Hover::crosses(*old(widget), *e) {
                Some(Effect::Send(Signal::Update(trigger.uid)))
            } else {
                None
            }),
    {
        match e {
            Event::CursorMoved { position } => {
                let previous = widget.state.hovered;
                widget.state.hovered = widget.layout.is_inbounds(position.x, position.y);
                if previous != widget.state.hovered {
                    if widget.state.hovered {
                        widget.style.color.set_mode(ColorMode::Overlay(self.hover_color));
                    } else {
                        widget.style.color.set_mode(ColorMode::Solid);
                    }
                    Some(Effect::Send(trigger.update()))
                } else {
                    None
                }
            },
            _ => None,
        }
    }
}

impl Hover {
    /// The widget after the pointer has moved to each of `moves` in
    /// turn.
    pub open spec fn after_moves(&self, widget: BaseWidget, moves: Seq<Point>) -> BaseWidget
        decreases moves.len(),
    {
        if moves.len() == 0 {
            widget
        } else {
            self.step(
                self.after_moves(widget, moves.drop_last()),
                Event::CursorMoved { position: moves.last() },
            )
        }
    }

    /// How many repaints are requested while the pointer moves to each
    /// of `moves` in turn.
    pub open spec fn requests(&self, widget: BaseWidget, moves: Seq<Point>) -> nat
        decreases moves.len(),
    {
        if moves.len() == 0 {
            0
        } else {
            let before = self.after_moves(widget, moves.drop_last());
            let here: nat = if Hover::crosses(before, Event::CursorMoved { position: moves.last() }) {
                1
            } else {
                0
            };
            self.requests(widget, moves.drop_last()) + here
        }
    }

    /// The widget after the pointer has gone to `inside` and then to
    /// `outside`, `n` times over.
    pub open spec fn round_trips(
        &self,
        widget: BaseWidget,
        inside: Point,
        outside: Point,
        n: nat,
    ) -> BaseWidget
        decreases n,
    {
        if n == 0 {
            widget
        } else {
            self.step(
                self.step(
                    self.round_trips(widget, inside, outside, (n - 1) as nat),
                    Event::CursorMoved { position: inside },
                ),
                Event::CursorMoved { position: outside },
            )
        }
    }
}

/// Whatever the pointer does, a hover action changes nothing of a
/// widget but its hover flag and the mode of its color: the base color,
/// the rectangle and everything else stay.
pub proof fn lemma_hover_keeps_base_color(hover: Hover, widget: BaseWidget, moves: Seq<Point>)
    ensures
        hover.after_moves(widget, moves).style.color.color == widget.style.color.color,
        hover.after_moves(widget, moves).layout == widget.layout,
    decreases moves.len(),
{
    if moves.len() > 0 {
        lemma_hover_keeps_base_color(hover, widget, moves.drop_last());
    }
}

/// Hovering is triggered by edges.
///
/// While the pointer moves about on a widget, only the move that
/// brings it there swaps the color and requests a repaint: if the
/// pointer was on the widget before, no move does; if it was not, the
/// first move does and no later one.
pub proof fn lemma_hover_edge_triggered(hover: Hover, widget: BaseWidget, moves: Seq<Point>)
    requires
        forall|i: int|
            0 <= i < moves.len() ==> widget.layout.spec_is_inbounds(
                (#[trigger] moves[i]).x,
                moves[i].y,
            ),
    ensures
        hover.requests(widget, moves) == (if widget.state.hovered || moves.len() == 0 {
            0nat
        } else {
            1nat
        }),
        moves.len() > 0 ==> hover.after_moves(widget, moves) == hover.step(
            widget,
            Event::CursorMoved { position: moves[0] },
        ),
        moves.len() > 0 ==> hover.after_moves(widget, moves).state.hovered,
    decreases moves.len(),
{
    if moves.len() > 0 {
        let front = moves.drop_last();
        lemma_hover_edge_triggered(hover, widget, front);
        lemma_hover_keeps_base_color(hover, widget, front);
        assert(widget.layout.spec_is_inbounds(moves[moves.len() - 1].x, moves[moves.len() - 1].y));
        if front.len() > 0 {
            assert(front[0] == moves[0]);
        } else {
            assert(widget.layout.spec_is_inbounds(moves[0].x, moves[0].y));
        }
    }
}

/// Hovering leaves no trace.
///
/// A widget that shows its color solid and is not hovered is exactly
/// what it was once the pointer has come onto it and left again, however
/// many times over.
pub proof fn lemma_hover_round_trip(
    hover: Hover,
    widget: BaseWidget,
    inside: Point,
    outside: Point,
    n: nat,
)
    requires
        !widget.state.hovered,
        widget.style.color.mode == ColorMode::Solid,
        widget.layout.spec_is_inbounds(inside.x, inside.y),
        !widget.layout.spec_is_inbounds(outside.x, outside.y),
    ensures
        hover.round_trips(widget, inside, outside, n) == widget,
    decreases n,
{
    if n > 0 {
        lemma_hover_round_trip(hover, widget, inside, outside, (n - 1) as nat);
    }
}

} // verus!

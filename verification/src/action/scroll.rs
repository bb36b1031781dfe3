//! Scrolling a container by dragging the thumbs of its scrollbars.
//!
//! A [`Scroll`] is idle until the left button goes down while the
//! pointer is on a thumb. From then until the button comes up, the
//! thumb follows the pointer along its track and the children of the
//! container are shifted against it.
use vstd::prelude::*;
use crate::action::Effect;
use crate::scalar::{quotient, Scalar, SCALE};
use crate::ui::event::{ElementState, Event, PointerButton};
use crate::ui::layout::{Layout, Point};
use crate::ui::state::State;
use crate::ui::sync::{Signal, Trigger};
use crate::ui::widget::scrollbar::ScrollBar;
use crate::ui::widget::{BaseWidget, WidgetNode};

verus! {

/// One of the two scrollbars of a container.
#[derive(Debug, Clone, Copy, PartialEq, Eq, Structural)]
pub enum Axis {
    /// The horizontal scrollbar.
    X,
    /// The vertical scrollbar.
    Y,
}

/// Lets a container be scrolled along either axis.
///
/// `axis` is the scrollbar being dragged, if any. `cursor_offset` is
/// where on the thumb the pointer took hold of it. `scroll_delta` is
/// how far the content moves for each unit that the thumb moves, and
/// `max_scroll_range` is the farthest position of the thumb.
#[derive(Debug, Clone, Copy, PartialEq, Eq, Structural)]
pub struct Scroll {
    pub axis: Option<Axis>,
    pub cursor_offset: Scalar,
    pub scroll_delta: Scalar,
    pub max_scroll_range: Scalar,
}

/// The largest of `floor` and the widths of the first `k` widgets.
pub open spec fn widest(children: Seq<WidgetNode>, floor: Scalar, k: int) -> Scalar
    decreases k,
{
    if k <= 0 {
        floor
    } else {
        widest(children, floor, k - 1).spec_most(children[k - 1].spec_base().layout.w)
    }
}

/// Right edge of a container.
pub open spec fn right_edge(base: BaseWidget) -> Scalar {
    base.layout.w.spec_plus(base.layout.x)
}

/// Bottom edge of a container.
pub open spec fn bottom_edge(base: BaseWidget) -> Scalar {
    base.layout.h.spec_plus(base.layout.y)
}

/// How far the content of a container reaches to the right: as far as
/// the widest child is wide, and at least to the container's right
/// edge.
pub open spec fn content_right(base: BaseWidget, children: Seq<WidgetNode>) -> Scalar {
    widest(children, right_edge(base), children.len() as int)
}

/// How far the content of a container reaches downward: to the bottom
/// edge of the last child, and to the container's own bottom edge where
/// it has no children.
pub open spec fn content_bottom(base: BaseWidget, children: Seq<WidgetNode>) -> Scalar {
    if children.len() == 0 {
        bottom_edge(base)
    } else {
        children.last().spec_base().layout.y.spec_plus(children.last().spec_base().layout.h)
    }
}

/// A scrollbar with its hover flag set to `hovered`.
pub open spec fn bar_hovered(bar: ScrollBar, hovered: bool) -> ScrollBar {
    ScrollBar { base: BaseWidget { state: State { hovered }, ..bar.base }, ..bar }
}

/// A scrollbar with its thumb moved to `layout`.
pub open spec fn bar_placed(bar: ScrollBar, layout: Layout) -> ScrollBar {
    ScrollBar { base: BaseWidget { layout, ..bar.base }, ..bar }
}

/// A widget drawn shifted by `offset`.
pub open spec fn shifted(node: WidgetNode, offset: Point) -> WidgetNode {
    node.with_base(BaseWidget { offset, ..node.spec_base() })
}

/// Computes [`content_right`].
pub fn reach_right(base: &BaseWidget, children: &Vec<WidgetNode>) -> (reach: Scalar)
    ensures
        reach == content_right(*base, children@),
{
    let mut reach = base.layout.w.plus(base.layout.x);
    let mut i: usize = 0;
    while i < children.len()
        invariant
            i <= children.len(),
            reach == widest(children@, right_edge(*base), i as int),
        decreases children.len() - i,
    {
        reach = reach.most(children[i].base().layout.w);
        i = i + 1;
    }
    reach
}

/// Computes [`content_bottom`].
pub fn reach_bottom(base: &BaseWidget, children: &Vec<WidgetNode>) -> (reach: Scalar)
    ensures
        reach == content_bottom(*base, children@),
{
    if children.len() == 0 {
        base.layout.h.plus(base.layout.y)
    } else {
        let last = children[children.len() - 1].base().layout;
        last.y.plus(last.h)
    }
}

impl Scroll {
    /// A scroll action that drags nothing.
    pub fn new() -> (s: Scroll)
        ensures
            s == Scroll::idle(),
    {
        Scroll {
            axis: None,
            cursor_offset: Scalar::zero(),
            scroll_delta: Scalar::zero(),
            max_scroll_range: Scalar::zero(),
        }
    }

    /// The state before anything has happened.
    pub open spec fn idle() -> Scroll {
        Scroll {
            axis: None,
            cursor_offset: Scalar { raw: 0 },
            scroll_delta: Scalar { raw: 0 },
            max_scroll_range: Scalar { raw: 0 },
        }
    }

    /// The state after the left button went down with the pointer at
    /// `pos`: a hovered thumb becomes the one being dragged, the vertical
    /// one where both are hovered, and the place where the pointer holds
    /// it is kept.
    pub open spec fn pressed(self, bars: (ScrollBar, ScrollBar), pos: Point) -> Scroll {
        if bars.1.base.state.hovered {
            Scroll {
                axis: Some(Axis::Y),
                cursor_offset: pos.y.spec_minus(bars.1.base.layout.y),
                ..self
            }
        } else if bars.0.base.state.hovered {
            Scroll {
                axis: Some(Axis::X),
                cursor_offset: pos.x.spec_minus(bars.0.base.layout.x),
                ..self
            }
        } else {
            self
        }
    }

    /// The far edge of a container along `axis`.
    pub open spec fn far_edge(axis: Axis, base: BaseWidget) -> Scalar {
        match axis {
            Axis::X => right_edge(base),
            Axis::Y => bottom_edge(base),
        }
    }

    /// The length of the thumb along `axis`.
    pub open spec fn thumb_size(axis: Axis, bars: (ScrollBar, ScrollBar)) -> Scalar {
        match axis {
            Axis::X => bars.0.base.layout.w,
            Axis::Y => bars.1.base.layout.h,
        }
    }

    /// The room that the scrollbar of the other axis keeps free at the
    /// end of the track along `axis`.
    pub open spec fn kept_free(axis: Axis, bars: (ScrollBar, ScrollBar)) -> Scalar {
        match axis {
            Axis::X => bars.1.buffer,
            Axis::Y => bars.0.buffer,
        }
    }

    /// The farthest position of the thumb along `axis`: the far edge of
    /// the container less the length of the thumb and less the room that
    /// the other scrollbar keeps free.
    pub open spec fn track_end(axis: Axis, base: BaseWidget, bars: (ScrollBar, ScrollBar)) -> Scalar {
        Scroll::far_edge(axis, base).spec_minus(Scroll::thumb_size(axis, bars)).spec_minus(
            Scroll::kept_free(axis, bars),
        )
    }

    /// The nearest position of the thumb along `axis`: the near edge of
    /// the container.
    pub open spec fn track_start(axis: Axis, base: BaseWidget) -> Scalar {
        match axis {
            Axis::X => base.layout.x,
            Axis::Y => base.layout.y,
        }
    }

    /// How far the thumb can travel along `axis`: from the start of its
    /// track to its farthest position.
    pub open spec fn room(axis: Axis, base: BaseWidget, bars: (ScrollBar, ScrollBar)) -> Scalar {
        Scroll::track_end(axis, base, bars).spec_minus(Scroll::track_start(axis, base))
    }

    /// How far the content reaches beyond the far edge of the container
    /// along `axis`, and zero where it does not reach that far.
    pub open spec fn overflow(axis: Axis, base: BaseWidget, children: Seq<WidgetNode>) -> Scalar {
        (match axis {
            Axis::X => content_right(base, children),
            Axis::Y => content_bottom(base, children),
        }).spec_minus(Scroll::far_edge(axis, base)).spec_most(Scalar { raw: 0 })
    }

    /// How far the content moves for each unit that the thumb moves
    /// along `axis`: the overflow over the way that the thumb can travel.
    pub open spec fn ratio(
        axis: Axis,
        base: BaseWidget,
        bars: (ScrollBar, ScrollBar),
        children: Seq<WidgetNode>,
    ) -> Scalar {
        Scroll::overflow(axis, base, children).spec_over(Scroll::room(axis, base, bars))
    }

    /// The state with the range and the ratio of the dragged axis worked
    /// out; unchanged where nothing is dragged.
    pub open spec fn ranged(
        self,
        base: BaseWidget,
        bars: (ScrollBar, ScrollBar),
        children: Seq<WidgetNode>,
    ) -> Scroll {
        match self.axis {
            Some(axis) => Scroll {
                max_scroll_range: Scroll::track_end(axis, base, bars),
                scroll_delta: Scroll::ratio(axis, base, bars, children),
                ..self
            },
            None => self,
        }
    }

    /// The scrollbars once their hover flags say whether `pos` is on
    /// their thumbs.
    pub open spec fn hovered_bars(bars: (ScrollBar, ScrollBar), pos: Point) -> (ScrollBar, ScrollBar) {
        (
            bar_hovered(bars.0, bars.0.base.layout.spec_is_inbounds(pos.x, pos.y)),
            bar_hovered(bars.1, bars.1.base.layout.spec_is_inbounds(pos.x, pos.y)),
        )
    }

    /// Where the dragged thumb sits with the pointer at `pos`: where the
    /// pointer takes it, held between the start of the track and the
    /// farthest position.
    pub open spec fn thumb_at(self, axis: Axis, base: BaseWidget, pos: Point) -> Scalar {
        let wanted = match axis {
            Axis::X => pos.x,
            Axis::Y => pos.y,
        };
        wanted.spec_minus(self.cursor_offset).spec_within(
            Scroll::track_start(axis, base),
            self.max_scroll_range,
        )
    }

    /// The scrollbars with the dragged thumb moved to follow the
    /// pointer at `pos`.
    pub open spec fn dragged_bars(
        self,
        base: BaseWidget,
        bars: (ScrollBar, ScrollBar),
        pos: Point,
    ) -> (ScrollBar, ScrollBar) {
        match self.axis {
            Some(Axis::X) => (
                bar_placed(
                    bars.0,
                    Layout { x: self.thumb_at(Axis::X, base, pos), ..bars.0.base.layout },
                ),
                bars.1,
            ),
            Some(Axis::Y) => (
                bars.0,
                bar_placed(
                    bars.1,
                    Layout { y: self.thumb_at(Axis::Y, base, pos), ..bars.1.base.layout },
                ),
            ),
            None => bars,
        }
    }

    /// How far the content is moved against the thumb: the distance of
    /// the thumb from the start of its track times the ratio.
    pub open spec fn shift(self, axis: Axis, base: BaseWidget, pos: Point) -> Scalar {
        self.thumb_at(axis, base, pos).spec_minus(Scroll::track_start(axis, base)).spec_times(
            self.scroll_delta,
        )
    }

    /// The scroll shift of a child while the thumb follows the pointer
    /// at `pos`: along the dragged axis the opposite of [`Scroll::shift`],
    /// along the other axis what it was.
    pub open spec fn child_offset(self, base: BaseWidget, pos: Point, before: Point) -> Point {
        match self.axis {
            Some(Axis::X) => Point {
                x: (Scalar { raw: 0 }).spec_minus(self.shift(Axis::X, base, pos)),
                y: before.y,
            },
            Some(Axis::Y) => Point {
                x: before.x,
                y: (Scalar { raw: 0 }).spec_minus(self.shift(Axis::Y, base, pos)),
            },
            None => before,
        }
    }

    /// Takes note of a press of the left button with the pointer at
    /// `last_cursor_pos`.
    pub fn on_pressed(&mut self, bars: &(ScrollBar, ScrollBar), last_cursor_pos: Point)
        ensures
            *final(self) == old(self).pressed(*bars, last_cursor_pos),
    {
        if bars.0.base.state.hovered {
            self.axis = Some(Axis::X);
            self.cursor_offset = last_cursor_pos.x.minus(bars.0.base.layout.x);
        }
        if bars.1.base.state.hovered {
            self.axis = Some(Axis::Y);
            self.cursor_offset = last_cursor_pos.y.minus(bars.1.base.layout.y);
        }
    }

    /// Works out, for the axis being dragged, how far the thumb may go
    /// and how far the content moves with it.
    pub fn compute_scroll(
        &mut self,
        base: &BaseWidget,
        bars: &(ScrollBar, ScrollBar),
        children: &Vec<WidgetNode>,
    )
        ensures
            *final(self) == old(self).ranged(*base, *bars, children@),
    {
        match self.axis {
            Some(Axis::X) => {
                let container_width = base.layout.w.plus(base.layout.x);
                let overflow_x = reach_right(base, children);
                let total_overflow = overflow_x.minus(container_width).most(Scalar::zero());
                let scrollbar_buffer = bars.0.base.layout.w;
                let true_scroll_range = container_width.minus(scrollbar_buffer).minus(bars.1.buffer);
                let content_offset = base.layout.x;
                let delta = total_overflow.over(true_scroll_range.minus(content_offset));
                self.max_scroll_range = true_scroll_range;
                self.scroll_delta = delta;
            },
            Some(Axis::Y) => {
                let overflow_y = reach_bottom(base, children);
                let container_height = base.layout.h.plus(base.layout.y);
                let total_overflow = overflow_y.minus(container_height).most(Scalar::zero());
                let scrollbar_buffer = bars.1.base.layout.h;
                let true_scroll_range = container_height.minus(scrollbar_buffer).minus(bars.0.buffer);
                let content_offset = base.layout.y;
                let delta = total_overflow.over(true_scroll_range.minus(content_offset));
                self.max_scroll_range = true_scroll_range;
                self.scroll_delta = delta;
            },
            None => {},
        }
    }

    /// Sets the hover flag of each thumb by a hit test of the pointer at
    /// `pos`.
    pub fn on_cursor_movement(&self, bars: &mut (ScrollBar, ScrollBar), pos: Point)
        ensures
            *final(bars) == Scroll::hovered_bars(*old(bars), pos),
    {
        bars.0.base.state.hovered = bars.0.base.layout.is_inbounds(pos.x, pos.y);
        bars.1.base.state.hovered = bars.1.base.layout.is_inbounds(pos.x, pos.y);
    }

    /// Moves the dragged thumb after the pointer at `pos` and shifts the
    /// children against it. Layouts of children stay as they are: only
    /// their scroll shift changes.
    #[verifier::rlimit(50)]
    pub fn on_scroll_movement(
        &self,
        base: &BaseWidget,
        bars: &mut (ScrollBar, ScrollBar),
        children: &mut Vec<WidgetNode>,
        pos: Point,
    )
        ensures
            *final(bars) == self.dragged_bars(*base, *old(bars), pos),
            final(children)@.len() == old(children)@.len(),
            forall|i: int|
                0 <= i < old(children)@.len() ==> #[trigger] final(children)@[i] == shifted(
                    old(children)@[i],
                    self.child_offset(*base, pos, old(children)@[i].spec_base().offset),
                ),
    {
        match self.axis {
            Some(Axis::X) => {
                let at = pos.x.minus(self.cursor_offset).within(base.layout.x, self.max_scroll_range);
                bars.0.base.layout.x = at;
                let shift = at.minus(base.layout.x).times(self.scroll_delta);
                let moved = Scalar::zero().minus(shift);
                let n = children.len();
                let mut i: usize = 0;
                while i < n
                    invariant
                        i <= n,
                        n == children@.len(),
                        n == old(children)@.len(),
                        self.axis == Some(Axis::X),
                        moved == (Scalar { raw: 0 }).spec_minus(self.shift(Axis::X, *base, pos)),
                        forall|j: int|
                            0 <= j < i ==> #[trigger] children@[j] == shifted(
                                old(children)@[j],
                                self.child_offset(*base, pos, old(children)@[j].spec_base().offset),
                            ),
                        forall|j: int| i <= j < n ==> #[trigger] children@[j] == old(children)@[j],
                    decreases n - i,
                {
                    let child = children[i].base_mut();
                    child.offset.x = moved;
                    i = i + 1;
                }
            },
            Some(Axis::Y) => {
                let at = pos.y.minus(self.cursor_offset).within(base.layout.y, self.max_scroll_range);
                bars.1.base.layout.y = at;
                let shift = at.minus(base.layout.y).times(self.scroll_delta);
                let moved = Scalar::zero().minus(shift);
                let n = children.len();
                let mut i: usize = 0;
                while i < n
                    invariant
                        i <= n,
                        n == children@.len(),
                        n == old(children)@.len(),
                        self.axis == Some(Axis::Y),
                        moved == (Scalar { raw: 0 }).spec_minus(self.shift(Axis::Y, *base, pos)),
                        forall|j: int|
                            0 <= j < i ==> #[trigger] children@[j] == shifted(
                                old(children)@[j],
                                self.child_offset(*base, pos, old(children)@[j].spec_base().offset),
                            ),
                        forall|j: int| i <= j < n ==> #[trigger] children@[j] == old(children)@[j],
                    decreases n - i,
                {
                    let child = children[i].base_mut();
                    child.offset.y = moved;
                    i = i + 1;
                }
            },
            None => {
                proof {
                    assert forall|i: int| 0 <= i < old(children)@.len() implies #[trigger] children@[i]
                        == shifted(
                        old(children)@[i],
                        self.child_offset(*base, pos, old(children)@[i].spec_base().offset),
                    ) by {
                        lemma_shifted_same(old(children)@[i]);
                    }
                }
            },
        }
    }

    /// The state after the event `e`, for a container that has the
    /// scrollbars `bars`.
    ///
    /// A press of the left button takes hold of a hovered thumb and works
    /// out range and ratio; a release of the left button lets go. Nothing
    /// else changes the state.
    pub open spec fn next(
        self,
        base: BaseWidget,
        bars: (ScrollBar, ScrollBar),
        children: Seq<WidgetNode>,
        e: Event,
        last_cursor_pos: Point,
    ) -> Scroll {
        match e {
            Event::MouseInput { button: PointerButton::Left, state: ElementState::Pressed } => self.pressed(
                bars,
                last_cursor_pos,
            ).ranged(base, bars, children),
            Event::MouseInput { button: PointerButton::Left, state: ElementState::Released } => Scroll {
                axis: None,
                ..self
            },
            _ => self,
        }
    }

    /// The scrollbars after the event `e`: a cursor movement drags the
    /// thumb that is held, or else updates the hover flags.
    pub open spec fn next_bars(
        self,
        base: BaseWidget,
        bars: (ScrollBar, ScrollBar),
        e: Event,
    ) -> (ScrollBar, ScrollBar) {
        match e {
            Event::CursorMoved { position } => if self.axis is Some {
                self.dragged_bars(base, bars, position)
            } else {
                Scroll::hovered_bars(bars, position)
            },
            _ => bars,
        }
    }

    /// The scroll shift of a child after the event `e`.
    pub open spec fn next_offset(self, base: BaseWidget, e: Event, before: Point) -> Point {
        match e {
            Event::CursorMoved { position } => self.child_offset(base, position, before),
            _ => before,
        }
    }

    /// Whether the event `e` drags a thumb.
    pub open spec fn drags(self, e: Event) -> bool {
        e is CursorMoved && self.axis is Some
    }

    /// Lets the action see the event `e` for a container with the common
    /// record `base`, the scrollbars `scrollbar` and the children
    /// `children`. `last_cursor_pos` is where the pointer was last seen.
    ///
    /// A container without scrollbars is left alone. Otherwise the state
    /// moves on as [`Scroll::next`] says, the scrollbars as
    /// [`Scroll::next_bars`] says, each child's scroll shift as
    /// [`Scroll::next_offset`] says, and a repaint of the container is
    /// requested exactly when a thumb was dragged.
    #[verifier::rlimit(50)]
    pub fn apply(
        &mut self,
        trigger: &Trigger,
        base: &BaseWidget,
        scrollbar: &mut Option<(ScrollBar, ScrollBar)>,
        children: &mut Vec<WidgetNode>,
        e: &Event,
        last_cursor_pos: Point,
    ) -> (effect: Option<Effect>)
        ensures
            *old(scrollbar) is None ==> {
                &&& *final(self) == *old(self)
                &&& *final(scrollbar) == *old(scrollbar)
                &&& *final(children) == *old(children)
                &&& effect is None
            },
            *old(scrollbar) matches Some(bars) ==> {
                &&& *final(self) == old(self).next(*base, bars, old(children)@, *e, last_cursor_pos)
                &&& *final(scrollbar) == Some(old(self).next_bars(*base, bars, *e))
                &&& final(children)@.len() == old(children)@.len()
                &&& forall|i: int|
                    0 <= i < old(children)@.len() ==> #[trigger] final(children)@[i] == shifted(
                        old(children)@[i],
                        old(self).next_offset(*base, *e, old(children)@[i].spec_base().offset),
                    )
                &&& effect == (if old(self).drags(*e) {
                    Some(Effect::Send(Signal::Update(trigger.uid)))
                } else {
                    None
                })
            },
    {
        match scrollbar {
            None => None,
            Some(bars) => {
                proof {
                    assert forall|i: int| 0 <= i < old(children)@.len() implies old(children)@[i]
                        == #[trigger] shifted(
                        old(children)@[i],
                        old(children)@[i].spec_base().offset,
                    ) by {
                        lemma_shifted_same(old(children)@[i]);
                    }
                }
                match e {
                    Event::CursorMoved { position } => {
                        if self.axis.is_some() {
                            self.on_scroll_movement(base, bars, children, *position);
                            Some(Effect::Send(trigger.update()))
                        } else {
                            self.on_cursor_movement(bars, *position);
                            None
                        }
                    },
                    Event::MouseInput { button: PointerButton::Left, state: ElementState::Pressed } => {
                        self.on_pressed(bars, last_cursor_pos);
                        if self.axis.is_some() {
                            self.compute_scroll(base, bars, children);
                        }
                        None
                    },
                    Event::MouseInput { button: PointerButton::Left, state: ElementState::Released } => {
                        self.axis = None;
                        None
                    },
                    _ => None,
                }
            },
        }
    }
}

/// Shifting a widget by the shift it already has changes nothing.
pub proof fn lemma_shifted_same(node: WidgetNode)
    ensures
        shifted(node, node.spec_base().offset) == node,
{
}

/// A dragged thumb stays on its track.
///
/// `s` is a scroll action whose range has been worked out for the
/// container. Wherever the pointer goes, the thumb is never before the
/// near edge of the container, and its far end never beyond the far
/// edge, for a thumb that is no longer than the container and another
/// scrollbar that keeps no less than nothing free. The far edge of the
/// container has to be a number that can be represented.
pub proof fn lemma_thumb_on_track(
    s: Scroll,
    axis: Axis,
    base: BaseWidget,
    bars: (ScrollBar, ScrollBar),
    pos: Point,
)
    requires
        s.max_scroll_range == Scroll::track_end(axis, base, bars),
        Scroll::kept_free(axis, bars).raw >= 0,
        match axis {
            Axis::X => bars.0.base.layout.w.raw <= base.layout.w.raw && i64::MIN <= base.layout.w.raw
                + base.layout.x.raw <= i64::MAX,
            Axis::Y => bars.1.base.layout.h.raw <= base.layout.h.raw && i64::MIN <= base.layout.h.raw
                + base.layout.y.raw <= i64::MAX,
        },
    ensures
        Scroll::track_start(axis, base).raw <= s.thumb_at(axis, base, pos).raw,
        s.thumb_at(axis, base, pos).raw <= Scroll::far_edge(axis, base).spec_minus(
            Scroll::thumb_size(axis, bars),
        ).raw,
{
}

/// Wherever the pointer goes, a dragged thumb is never before the start
/// of its track, and no further from it than the thumb can travel.
pub proof fn lemma_thumb_travel(
    s: Scroll,
    axis: Axis,
    base: BaseWidget,
    bars: (ScrollBar, ScrollBar),
    pos: Point,
)
    requires
        s.max_scroll_range == Scroll::track_end(axis, base, bars),
    ensures
        Scroll::track_start(axis, base).raw <= s.thumb_at(axis, base, pos).raw,
        0 <= s.thumb_at(axis, base, pos).spec_minus(Scroll::track_start(axis, base)).raw,
        Scroll::room(axis, base, bars).raw >= 0 ==> s.thumb_at(axis, base, pos).spec_minus(
            Scroll::track_start(axis, base),
        ).raw <= Scroll::room(axis, base, bars).raw,
        Scroll::room(axis, base, bars).raw <= 0 ==> s.thumb_at(axis, base, pos) == Scroll::track_start(
            axis,
            base,
        ),
{
}

/// Content is never scrolled further than it overflows.
///
/// `s` is a scroll action whose range and ratio have been worked out
/// for the container. Wherever the pointer goes, the content is shifted
/// against the thumb by no less than nothing and by no more than it
/// reaches beyond the container.
pub proof fn lemma_shift_within_overflow(
    s: Scroll,
    axis: Axis,
    base: BaseWidget,
    bars: (ScrollBar, ScrollBar),
    children: Seq<WidgetNode>,
    pos: Point,
)
    requires
        s.max_scroll_range == Scroll::track_end(axis, base, bars),
        s.scroll_delta == Scroll::ratio(axis, base, bars, children),
    ensures
        0 <= Scroll::overflow(axis, base, children).raw,
        0 <= s.shift(axis, base, pos).raw <= Scroll::overflow(axis, base, children).raw,
{
    lemma_thumb_travel(s, axis, base, bars, pos);
    let d = s.thumb_at(axis, base, pos).spec_minus(Scroll::track_start(axis, base)).raw as int;
    let room = Scroll::room(axis, base, bars).raw as int;
    let ov = Scroll::overflow(axis, base, children).raw as int;
    let delta = s.scroll_delta.raw as int;
    assert(d >= 0);
    assert(ov >= 0);
    if room <= 0 {
        assert(d == 0);
        assert(d * delta == 0) by (nonlinear_arith)
            requires
                d == 0,
        ;
        assert(quotient(0, SCALE as int) == 0);
    } else {
        let whole = ov * SCALE;
        let q = whole / room;
        assert(whole >= 0) by (nonlinear_arith)
            requires
                ov >= 0,
                whole == ov * 65536,
        ;
        assert(0 <= q && room * q <= whole) by (nonlinear_arith)
            requires
                room > 0,
                whole >= 0,
                q == whole / room,
        ;
        assert(quotient(whole, room) == q);
        assert(0 <= delta <= q);
        assert(0 <= d * delta <= whole) by (nonlinear_arith)
            requires
                0 <= d <= room,
                0 <= delta <= q,
                room * q <= whole,
        ;
        assert(quotient(d * delta, SCALE as int) == (d * delta) / (SCALE as int));
    }
}

} // verus!

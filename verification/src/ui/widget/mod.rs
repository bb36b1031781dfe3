//! The widgets and the tree they form.
//!
//! Every widget embeds one [`BaseWidget`], the record of what all
//! widgets have in common, next to its list of actions, the handle of a
//! background producer if one is connected, and the trigger it receives
//! when it enters the tree. A [`WidgetNode`] is any one widget; only
//! containers and canvases hold further widgets.
use vstd::prelude::*;
use crate::action::Action;
use crate::scalar::Scalar;
use crate::ui::color::{Color, ColorMode, ColorState};
use crate::ui::layout::{Layout, Point};
use crate::ui::state::State;
use crate::ui::style::Style;
use crate::ui::sync::Trigger;
use crate::ui::text::Text;
use crate::ui::widget::button::Button;
use crate::ui::widget::canvas::Canvas;
use crate::ui::widget::cell::Cell;
use crate::ui::widget::container::Container;
use crate::ui::widget::heading::Heading;
use crate::ui::widget::label::Label;
use crate::ui::widget::scrollbar::ScrollBar;

pub mod button;
pub mod canvas;
pub mod cell;
pub mod container;
pub mod fit;
pub mod heading;
pub mod label;
pub mod scrollbar;

verus! {

/// Names a background producer that the application keeps.
pub type EmitterId = usize;

/// What every widget has: an id chosen by the user, text, style,
/// position and size, a scroll shift and transient state.
///
/// `offset` shifts the widget when it is drawn and plays no part in
/// layout or hit-testing.
#[derive(Debug)]
pub struct BaseWidget {
    pub id: String,
    pub text: Text,
    pub style: Style,
    pub layout: Layout,
    pub offset: Point,
    pub state: State,
}

impl Default for BaseWidget {
    fn default() -> (b: BaseWidget)
        ensures
            b.is_blank(),
    {
        BaseWidget {
            id: String::new(),
            text: Text::default(),
            style: Style::default(),
            layout: Layout::default(),
            offset: Point::default(),
            state: State::default(),
        }
    }
}

impl BaseWidget {
    /// What a widget is before anything has been set on it: no id, no
    /// label, twelve-point text, solid white, no rounding, everything
    /// else zero.
    pub open spec fn is_blank(&self) -> bool {
        &&& self.id@ == Seq::<char>::empty()
        &&& self.text.label@ == Seq::<char>::empty()
        &&& self.text.font_size == Scalar::spec_whole(12)
        &&& self.text.pos == Point::origin()
        &&& self.text.extent == Point::origin()
        &&& !self.text.valign
        &&& !self.text.halign
        &&& self.style == Style::plain()
        &&& self.layout == Layout::empty()
        &&& self.offset == Point::origin()
        &&& !self.state.hovered
    }

    /// The same widget at another place or of another size.
    pub open spec fn with_layout(self, layout: Layout) -> BaseWidget {
        BaseWidget { layout, ..self }
    }

    /// A copy of the record.
    pub fn duplicate(&self) -> (copy: BaseWidget)
        ensures
            copy == *self,
    {
        BaseWidget {
            id: self.id.clone(),
            text: Text {
                label: self.text.label.clone(),
                font_size: self.text.font_size,
                pos: self.text.pos,
                extent: self.text.extent,
                valign: self.text.valign,
                halign: self.text.halign,
            },
            style: self.style,
            layout: self.layout,
            offset: self.offset,
            state: self.state,
        }
    }
}

/// Any one widget.
#[derive(Debug)]
pub enum WidgetNode {
    Button(Button),
    Canvas(Canvas),
    Cell(Cell),
    Container(Container),
    Heading(Heading),
    Label(Label),
    ScrollBar(ScrollBar),
}

impl WidgetNode {
    /// The common record of the widget.
    pub open spec fn spec_base(&self) -> BaseWidget {
        match *self {
            WidgetNode::Button(w) => w.base,
            WidgetNode::Canvas(w) => w.base,
            WidgetNode::Cell(w) => w.base,
            WidgetNode::Container(w) => w.base,
            WidgetNode::Heading(w) => w.base,
            WidgetNode::Label(w) => w.base,
            WidgetNode::ScrollBar(w) => w.base,
        }
    }

    /// The same widget with another common record.
    pub open spec fn with_base(self, base: BaseWidget) -> WidgetNode {
        match self {
            WidgetNode::Button(w) => WidgetNode::Button(Button { base, ..w }),
            WidgetNode::Canvas(w) => WidgetNode::Canvas(Canvas { base, ..w }),
            WidgetNode::Cell(w) => WidgetNode::Cell(Cell { base, ..w }),
            WidgetNode::Container(w) => WidgetNode::Container(Container { base, ..w }),
            WidgetNode::Heading(w) => WidgetNode::Heading(Heading { base, ..w }),
            WidgetNode::Label(w) => WidgetNode::Label(Label { base, ..w }),
            WidgetNode::ScrollBar(w) => WidgetNode::ScrollBar(ScrollBar { base, ..w }),
        }
    }

    /// The same widget at another place or of another size.
    pub open spec fn with_layout(self, layout: Layout) -> WidgetNode {
        self.with_base(self.spec_base().with_layout(layout))
    }

    /// The trigger of the widget, if it has entered a tree.
    pub open spec fn spec_trigger(&self) -> Option<Trigger> {
        match *self {
            WidgetNode::Button(w) => w.trigger,
            WidgetNode::Canvas(w) => w.trigger,
            WidgetNode::Cell(w) => w.trigger,
            WidgetNode::Container(w) => w.trigger,
            WidgetNode::Heading(w) => w.trigger,
            WidgetNode::Label(w) => w.trigger,
            WidgetNode::ScrollBar(w) => w.trigger,
        }
    }

    /// The common record of the widget.
    pub fn base(&self) -> (b: &BaseWidget)
        ensures
            *b == self.spec_base(),
    {
        match self {
            WidgetNode::Button(w) => &w.base,
            WidgetNode::Canvas(w) => &w.base,
            WidgetNode::Cell(w) => &w.base,
            WidgetNode::Container(w) => &w.base,
            WidgetNode::Heading(w) => &w.base,
            WidgetNode::Label(w) => &w.base,
            WidgetNode::ScrollBar(w) => &w.base,
        }
    }

    /// The common record of the widget, open to change. Nothing else of
    /// the widget changes through it.
    pub fn base_mut(&mut self) -> (b: &mut BaseWidget)
        ensures
            *b == old(self).spec_base(),
            *final(self) == old(self).with_base(*final(b)),
    {
        match self {
            WidgetNode::Button(w) => &mut w.base,
            WidgetNode::Canvas(w) => &mut w.base,
            WidgetNode::Cell(w) => &mut w.base,
            WidgetNode::Container(w) => &mut w.base,
            WidgetNode::Heading(w) => &mut w.base,
            WidgetNode::Label(w) => &mut w.base,
            WidgetNode::ScrollBar(w) => &mut w.base,
        }
    }

    /// The trigger of the widget, if it has entered a tree.
    #[verifier::when_used_as_spec(spec_trigger)]
    pub fn trigger(&self) -> (t: Option<Trigger>)
        ensures
            t == self.spec_trigger(),
    {
        match self {
            WidgetNode::Button(w) => w.trigger,
            WidgetNode::Canvas(w) => w.trigger,
            WidgetNode::Cell(w) => w.trigger,
            WidgetNode::Container(w) => w.trigger,
            WidgetNode::Heading(w) => w.trigger,
            WidgetNode::Label(w) => w.trigger,
            WidgetNode::ScrollBar(w) => w.trigger,
        }
    }
}

impl WidgetNode {
    /// The actions attached to the widget.
    pub open spec fn spec_actions(&self) -> Vec<Action> {
        match *self {
            WidgetNode::Button(w) => w.actions,
            WidgetNode::Canvas(w) => w.actions,
            WidgetNode::Cell(w) => w.actions,
            WidgetNode::Container(w) => w.actions,
            WidgetNode::Heading(w) => w.actions,
            WidgetNode::Label(w) => w.actions,
            WidgetNode::ScrollBar(w) => w.actions,
        }
    }

    /// The same widget with other actions attached.
    pub open spec fn with_actions(self, actions: Vec<Action>) -> WidgetNode {
        match self {
            WidgetNode::Button(w) => WidgetNode::Button(Button { actions, ..w }),
            WidgetNode::Canvas(w) => WidgetNode::Canvas(Canvas { actions, ..w }),
            WidgetNode::Cell(w) => WidgetNode::Cell(Cell { actions, ..w }),
            WidgetNode::Container(w) => WidgetNode::Container(Container { actions, ..w }),
            WidgetNode::Heading(w) => WidgetNode::Heading(Heading { actions, ..w }),
            WidgetNode::Label(w) => WidgetNode::Label(Label { actions, ..w }),
            WidgetNode::ScrollBar(w) => WidgetNode::ScrollBar(ScrollBar { actions, ..w }),
        }
    }

    /// The same widget with another trigger.
    pub open spec fn with_trigger(self, trigger: Option<Trigger>) -> WidgetNode {
        match self {
            WidgetNode::Button(w) => WidgetNode::Button(Button { trigger, ..w }),
            WidgetNode::Canvas(w) => WidgetNode::Canvas(Canvas { trigger, ..w }),
            WidgetNode::Cell(w) => WidgetNode::Cell(Cell { trigger, ..w }),
            WidgetNode::Container(w) => WidgetNode::Container(Container { trigger, ..w }),
            WidgetNode::Heading(w) => WidgetNode::Heading(Heading { trigger, ..w }),
            WidgetNode::Label(w) => WidgetNode::Label(Label { trigger, ..w }),
            WidgetNode::ScrollBar(w) => WidgetNode::ScrollBar(ScrollBar { trigger, ..w }),
        }
    }

    /// The background producer connected to the widget, if any.
    pub open spec fn spec_emitter(&self) -> Option<EmitterId> {
        match *self {
            WidgetNode::Button(w) => w.emitter,
            WidgetNode::Canvas(w) => w.emitter,
            WidgetNode::Cell(w) => w.emitter,
            WidgetNode::Container(w) => w.emitter,
            WidgetNode::Heading(w) => w.emitter,
            WidgetNode::Label(w) => w.emitter,
            WidgetNode::ScrollBar(w) => w.emitter,
        }
    }

    /// The background producer connected to the widget, if any.
    #[verifier::when_used_as_spec(spec_emitter)]
    pub fn emitter(&self) -> (e: Option<EmitterId>)
        ensures
            e == self.spec_emitter(),
    {
        match self {
            WidgetNode::Button(w) => w.emitter,
            WidgetNode::Canvas(w) => w.emitter,
            WidgetNode::Cell(w) => w.emitter,
            WidgetNode::Container(w) => w.emitter,
            WidgetNode::Heading(w) => w.emitter,
            WidgetNode::Label(w) => w.emitter,
            WidgetNode::ScrollBar(w) => w.emitter,
        }
    }

    /// Gives the widget another trigger. Nothing else changes.
    pub fn set_trigger(&mut self, trigger: Option<Trigger>)
        ensures
            *final(self) == old(self).with_trigger(trigger),
    {
        match self {
            WidgetNode::Button(w) => w.trigger = trigger,
            WidgetNode::Canvas(w) => w.trigger = trigger,
            WidgetNode::Cell(w) => w.trigger = trigger,
            WidgetNode::Container(w) => w.trigger = trigger,
            WidgetNode::Heading(w) => w.trigger = trigger,
            WidgetNode::Label(w) => w.trigger = trigger,
            WidgetNode::ScrollBar(w) => w.trigger = trigger,
        }
    }

    /// The actions and the common record of the widget, both open to
    /// change. Nothing else of the widget changes through them.
    pub fn actions_and_base_mut(&mut self) -> (parts: (&mut Vec<Action>, &mut BaseWidget))
        ensures
            *parts.0 == old(self).spec_actions(),
            *parts.1 == old(self).spec_base(),
            *final(self) == old(self).with_base(*final(parts.1)).with_actions(*final(parts.0)),
    {
        match self {
            WidgetNode::Button(w) => (&mut w.actions, &mut w.base),
            WidgetNode::Canvas(w) => (&mut w.actions, &mut w.base),
            WidgetNode::Cell(w) => (&mut w.actions, &mut w.base),
            WidgetNode::Container(w) => (&mut w.actions, &mut w.base),
            WidgetNode::Heading(w) => (&mut w.actions, &mut w.base),
            WidgetNode::Label(w) => (&mut w.actions, &mut w.base),
            WidgetNode::ScrollBar(w) => (&mut w.actions, &mut w.base),
        }
    }
}

/// Depth of the tree below a widget.
pub open spec fn depth(node: WidgetNode) -> nat
    decreases node,
{
    match node {
        WidgetNode::Container(c) => 1 + deepest(c.children@, c.children@.len() as int),
        _ => 0,
    }
}

/// Depth of the deepest of the first `k` widgets.
pub open spec fn deepest(nodes: Seq<WidgetNode>, k: int) -> nat
    decreases nodes, k,
{
    if k <= 0 || k > nodes.len() {
        0
    } else {
        let rest = deepest(nodes, k - 1);
        let last = depth(nodes[k - 1]);
        if last > rest {
            last
        } else {
            rest
        }
    }
}

/// No widget of a list is deeper than the deepest of them.
pub proof fn lemma_deepest_bounds(nodes: Seq<WidgetNode>, k: int, i: int)
    requires
        0 <= i < k <= nodes.len(),
    ensures
        depth(nodes[i]) <= deepest(nodes, k),
    decreases k,
{
    if i < k - 1 {
        lemma_deepest_bounds(nodes, k - 1, i);
    }
}

/// A widget is as deep wherever it sits.
pub proof fn lemma_depth_of_moved(node: WidgetNode, layout: Layout)
    ensures
        depth(node.with_layout(layout)) == depth(node),
{
}

/// A widget is as deep whatever its common record holds.
pub proof fn lemma_depth_of_based(node: WidgetNode, base: BaseWidget)
    ensures
        depth(node.with_base(base)) == depth(node),
{
}

impl WidgetNode {
    /// The same widget connected to another background producer, or to
    /// none.
    pub open spec fn with_emitter(self, emitter: Option<EmitterId>) -> WidgetNode {
        match self {
            WidgetNode::Button(w) => WidgetNode::Button(Button { emitter, ..w }),
            WidgetNode::Canvas(w) => WidgetNode::Canvas(Canvas { emitter, ..w }),
            WidgetNode::Cell(w) => WidgetNode::Cell(Cell { emitter, ..w }),
            WidgetNode::Container(w) => WidgetNode::Container(Container { emitter, ..w }),
            WidgetNode::Heading(w) => WidgetNode::Heading(Heading { emitter, ..w }),
            WidgetNode::Label(w) => WidgetNode::Label(Label { emitter, ..w }),
            WidgetNode::ScrollBar(w) => WidgetNode::ScrollBar(ScrollBar { emitter, ..w }),
        }
    }
}

/// What all widgets offer: access to their common parts, and setters
/// that hand the widget back so that calls can be chained.
///
/// Every setter changes what it names and nothing else.
pub trait Widget: Sized {
    /// The widget as a node of a tree.
    spec fn node(self) -> WidgetNode;

    /// Makes the widget a node of a tree.
    fn into_node(self) -> (node: WidgetNode)
        ensures
            node == self.node(),
    ;

    /// The common record of the widget.
    fn base(&self) -> (base: &BaseWidget)
        ensures
            *base == self.node().spec_base(),
    ;

    /// The common record of the widget, open to change.
    fn base_mut(&mut self) -> (base: &mut BaseWidget)
        ensures
            *base == old(self).node().spec_base(),
            final(self).node() == old(self).node().with_base(*final(base)),
    ;

    /// The actions of the widget, open to change.
    fn action_mut(&mut self) -> (actions: &mut Vec<Action>)
        ensures
            *actions == old(self).node().spec_actions(),
            final(self).node() == old(self).node().with_actions(*final(actions)),
    ;

    /// The background producer connected to the widget, if any.
    fn emitter(&self) -> (emitter: Option<EmitterId>)
        ensures
            emitter == self.node().spec_emitter(),
    ;

    /// Connects the widget to the background producer `emitter`, which is
    /// started when the widget enters a tree.
    fn connect(self, emitter: EmitterId) -> (widget: Self)
        ensures
            widget.node() == self.node().with_emitter(Some(emitter)),
    ;

    /// The trigger of the widget, if it has entered a tree.
    fn internal_trigger(&self) -> (trigger: Option<Trigger>)
        ensures
            trigger == self.node().spec_trigger(),
    ;

    /// The trigger of a widget that has entered a tree.
    fn trigger(&self) -> (trigger: Trigger)
        requires
            self.node().spec_trigger() is Some,
        ensures
            Some(trigger) == self.node().spec_trigger(),
    {
        match self.internal_trigger() {
            Some(trigger) => trigger,
            None => Trigger::new(0),
        }
    }

    /// Sets the text shown on the widget.
    fn set_label(self, label: &str) -> (widget: Self)
        ensures
            widget.node().spec_base().text.label@ == label@,
            widget.node() == self.node().with_base(
                BaseWidget {
                    text: Text {
                        label: widget.node().spec_base().text.label,
                        ..self.node().spec_base().text
                    },
                    ..self.node().spec_base()
                },
            ),
    {
        let mut widget = self;
        let base = widget.base_mut();
        base.text.label = label.to_string();
        widget
    }

    /// Sets the size of the text.
    fn set_label_size(self, size: Scalar) -> (widget: Self)
        ensures
            widget.node() == self.node().with_base(
                BaseWidget {
                    text: Text { font_size: size, ..self.node().spec_base().text },
                    ..self.node().spec_base()
                },
            ),
    {
        let mut widget = self;
        let base = widget.base_mut();
        base.text.font_size = size;
        widget
    }

    /// Sets the id by which the user knows the widget.
    fn set_id(self, id: &str) -> (widget: Self)
        ensures
            widget.node().spec_base().id@ == id@,
            widget.node() == self.node().with_base(
                BaseWidget { id: widget.node().spec_base().id, ..self.node().spec_base() },
            ),
    {
        let mut widget = self;
        let base = widget.base_mut();
        base.id = id.to_string();
        widget
    }

    /// Sets the horizontal position.
    fn set_x(self, x: Scalar) -> (widget: Self)
        ensures
            widget.node() == self.node().with_layout(
                Layout { x, ..self.node().spec_base().layout },
            ),
    {
        let mut widget = self;
        let base = widget.base_mut();
        base.layout.x = x;
        widget
    }

    /// Sets the vertical position.
    fn set_y(self, y: Scalar) -> (widget: Self)
        ensures
            widget.node() == self.node().with_layout(
                Layout { y, ..self.node().spec_base().layout },
            ),
    {
        let mut widget = self;
        let base = widget.base_mut();
        base.layout.y = y;
        widget
    }

    /// Sets the height.
    fn set_height(self, height: Scalar) -> (widget: Self)
        ensures
            widget.node() == self.node().with_layout(
                Layout { h: height, ..self.node().spec_base().layout },
            ),
    {
        let mut widget = self;
        let base = widget.base_mut();
        base.layout.h = height;
        widget
    }

    /// Sets the width.
    fn set_width(self, width: Scalar) -> (widget: Self)
        ensures
            widget.node() == self.node().with_layout(
                Layout { w: width, ..self.node().spec_base().layout },
            ),
    {
        let mut widget = self;
        let base = widget.base_mut();
        base.layout.w = width;
        widget
    }

    /// Sets the rounding of the corners.
    fn set_radius(self, radius: u32) -> (widget: Self)
        ensures
            widget.node() == self.node().with_base(
                BaseWidget {
                    style: Style { radius, ..self.node().spec_base().style },
                    ..self.node().spec_base()
                },
            ),
    {
        let mut widget = self;
        let base = widget.base_mut();
        base.style.radius = radius;
        widget
    }

    /// Sets the fill color, shown solid.
    fn set_color(self, color: Color) -> (widget: Self)
        ensures
            widget.node() == self.node().with_base(
                BaseWidget {
                    style: Style {
                        color: ColorState { color, mode: ColorMode::Solid },
                        ..self.node().spec_base().style
                    },
                    ..self.node().spec_base()
                },
            ),
    {
        let mut widget = self;
        let base = widget.base_mut();
        base.style.color = ColorState::new(color);
        widget
    }

    /// Asks for the text to sit in the middle vertically.
    fn set_label_vertical(self) -> (widget: Self)
        ensures
            widget.node() == self.node().with_base(
                BaseWidget {
                    text: Text { valign: true, ..self.node().spec_base().text },
                    ..self.node().spec_base()
                },
            ),
    {
        let mut widget = self;
        let base = widget.base_mut();
        base.text.valign = true;
        widget
    }

    /// Asks for the text to sit in the middle horizontally.
    fn set_label_horizontal(self) -> (widget: Self)
        ensures
            widget.node() == self.node().with_base(
                BaseWidget {
                    text: Text { halign: true, ..self.node().spec_base().text },
                    ..self.node().spec_base()
                },
            ),
    {
        let mut widget = self;
        let base = widget.base_mut();
        base.text.halign = true;
        widget
    }

    /// Attaches `action` behind the actions the widget has.
    fn on_action(self, action: Action) -> (widget: Self)
        ensures
            widget.node().spec_actions()@ == self.node().spec_actions()@.push(action),
            widget.node() == self.node().with_actions(widget.node().spec_actions()),
    {
        let mut widget = self;
        let actions = widget.action_mut();
        actions.push(action);
        widget
    }
}

} // verus!

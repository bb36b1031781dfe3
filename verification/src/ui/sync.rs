//! Messages by which background producers ask for changes to widgets.
//!
//! A producer never touches a widget. It holds a [`Trigger`], which
//! names one widget, and turns its wishes into [`Signal`]s. The thread
//! that owns the widgets takes the signals one by one and acts on them.
use vstd::prelude::*;
use crate::scalar::Scalar;
use crate::ui::color::{Color, ColorMode, ColorState};
use crate::ui::layout::Layout;
use crate::ui::style::Style;
use crate::ui::text::Text;
use crate::ui::widget::BaseWidget;

verus! {

/// Identifies a widget for as long as it is in the tree.
pub type UID = usize;

/// A change to one widget, carried out by the thread that owns it.
#[derive(Debug)]
pub enum WidgetCallback {
    /// Gives the widget a new base color.
    SetColor(Color),
    /// Gives the widget a new label.
    SetLabel(String),
    /// Gives the widget a new width and height.
    SetSize(Scalar, Scalar),
    /// Moves the widget's top-left corner.
    SetPosition(Scalar, Scalar),
}

impl WidgetCallback {
    /// The common record `base` after the change.
    ///
    /// A new color is shown solid. A new label, size or position leaves
    /// everything else as it is.
    pub open spec fn applied(self, base: BaseWidget) -> BaseWidget {
        match self {
            WidgetCallback::SetColor(color) => BaseWidget {
                style: Style { color: ColorState { color, mode: ColorMode::Solid }, ..base.style },
                ..base
            },
            WidgetCallback::SetLabel(label) => BaseWidget {
                text: Text { label, ..base.text },
                ..base
            },
            WidgetCallback::SetSize(w, h) => BaseWidget {
                layout: Layout { w, h, ..base.layout },
                ..base
            },
            WidgetCallback::SetPosition(x, y) => BaseWidget {
                layout: Layout { x, y, ..base.layout },
                ..base
            },
        }
    }

    /// Carries the change out on `base`.
    pub fn apply(&self, base: &mut BaseWidget)
        ensures
            *final(base) == self.applied(*old(base)),
    {
        match self {
            WidgetCallback::SetColor(color) => {
                base.style.color = ColorState::new(*color);
            },
            WidgetCallback::SetLabel(label) => {
                base.text.label = label.clone();
            },
            WidgetCallback::SetSize(w, h) => {
                base.layout.w = *w;
                base.layout.h = *h;
            },
            WidgetCallback::SetPosition(x, y) => {
                base.layout.x = *x;
                base.layout.y = *y;
            },
        }
    }
}

/// A message to the thread that owns the widgets.
#[derive(Debug)]
pub enum Signal {
    /// Paint the widget anew.
    Update(UID),
    /// Change the widget, then paint it anew.
    Callback((UID, WidgetCallback)),
}

/// A handle to one widget by which changes to it are requested.
#[derive(Debug, Clone, Copy, PartialEq, Eq, Structural)]
pub struct Trigger {
    pub uid: UID,
}

impl Trigger {
    pub fn new(uid: UID) -> (t: Trigger)
        ensures
            t.uid == uid,
    {
        Trigger { uid }
    }

    /// The message that asks for the widget to be painted anew.
    pub fn update(&self) -> (signal: Signal)
        ensures
            signal == Signal::Update(self.uid),
    {
        Signal::Update(self.uid)
    }

    /// The message that asks for `callback` to be carried out on the
    /// widget before it is painted anew.
    pub fn update_callback(&self, callback: WidgetCallback) -> (signal: Signal)
        ensures
            signal == Signal::Callback((self.uid, callback)),
    {
        Signal::Callback((self.uid, callback))
    }
}

} // verus!

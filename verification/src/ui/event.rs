//! Input events as the toolkit sees them, free of any window system.
use vstd::prelude::*;
use crate::scalar::Scalar;
use crate::ui::layout::Point;
use crate::ui::sync::Signal;

verus! {

/// A physical button of the pointing device.
#[derive(Debug, Clone, Copy, PartialEq, Eq, Hash, Structural)]
pub enum PointerButton {
    Left,
    Right,
    Middle,
    Back,
    Forward,
    Other(u16),
}

/// Whether a button went down or came up.
#[derive(Debug, Clone, Copy, PartialEq, Eq, Hash, Structural)]
pub enum ElementState {
    Pressed,
    Released,
}

/// How far a wheel moved.
#[derive(Debug, Clone, Copy, PartialEq, Eq, Structural)]
pub enum ScrollDelta {
    /// Movement in lines: horizontal, then vertical.
    Line(Scalar, Scalar),
    /// Movement in pixels: horizontal, then vertical.
    Pixel(Scalar, Scalar),
}

/// Size of the window's drawing area in pixels.
#[derive(Debug, Clone, Copy, PartialEq, Eq, Structural)]
pub struct WindowSize {
    pub width: u32,
    pub height: u32,
}

/// One event of the event loop.
#[derive(Debug)]
pub enum Event {
    /// The pointer moved to `position`.
    CursorMoved { position: Point },
    /// A button changed state.
    MouseInput { button: PointerButton, state: ElementState },
    /// The wheel moved.
    MouseWheel { delta: ScrollDelta },
    /// The window was asked to close.
    CloseRequested,
    /// The window has to be painted anew.
    RedrawRequested,
    /// A message from a background producer.
    User(Signal),
    /// Anything the toolkit does not react to.
    Other,
}

} // verus!

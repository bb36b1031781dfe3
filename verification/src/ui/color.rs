//! Colors and the way a widget shows them.
use vstd::prelude::*;

verus! {

pub open spec fn spec_red() -> Color {
    Color::RGBA(255, 0, 0, 255)
}

pub open spec fn spec_green() -> Color {
    Color::RGBA(0, 255, 0, 255)
}

pub open spec fn spec_blue() -> Color {
    Color::RGBA(0, 0, 255, 255)
}

pub open spec fn spec_white() -> Color {
    Color::RGBA(255, 255, 255, 255)
}

pub open spec fn spec_black() -> Color {
    Color::RGBA(0, 0, 0, 255)
}

pub open spec fn spec_light_gray() -> Color {
    Color::RGBA(211, 211, 211, 255)
}

pub open spec fn spec_transparent() -> Color {
    Color::RGBA(0, 0, 0, 0)
}

/// Opaque red.
#[verifier::when_used_as_spec(spec_red)]
pub fn red() -> (c: Color)
    ensures
        c == Color::RGBA(255, 0, 0, 255),
{
    Color::RGBA(255, 0, 0, 255)
}

/// Opaque green.
#[verifier::when_used_as_spec(spec_green)]
pub fn green() -> (c: Color)
    ensures
        c == Color::RGBA(0, 255, 0, 255),
{
    Color::RGBA(0, 255, 0, 255)
}

/// Opaque blue.
#[verifier::when_used_as_spec(spec_blue)]
pub fn blue() -> (c: Color)
    ensures
        c == Color::RGBA(0, 0, 255, 255),
{
    Color::RGBA(0, 0, 255, 255)
}

/// Opaque white, the color a widget starts with.
#[verifier::when_used_as_spec(spec_white)]
pub fn white() -> (c: Color)
    ensures
        c == Color::RGBA(255, 255, 255, 255),
{
    Color::RGBA(255, 255, 255, 255)
}

/// Opaque black.
#[verifier::when_used_as_spec(spec_black)]
pub fn black() -> (c: Color)
    ensures
        c == Color::RGBA(0, 0, 0, 255),
{
    Color::RGBA(0, 0, 0, 255)
}

/// The gray of scrollbar thumbs.
#[verifier::when_used_as_spec(spec_light_gray)]
pub fn light_gray() -> (c: Color)
    ensures
        c == Color::RGBA(211, 211, 211, 255),
{
    Color::RGBA(211, 211, 211, 255)
}

/// Fully transparent black.
#[verifier::when_used_as_spec(spec_transparent)]
pub fn transparent() -> (c: Color)
    ensures
        c == Color::RGBA(0, 0, 0, 0),
{
    Color::RGBA(0, 0, 0, 0)
}

/// A color with 8-bit red, green, blue and alpha components.
#[derive(Debug, Clone, Copy, PartialEq, Eq, PartialOrd, Ord, Hash, Structural)]
pub enum Color {
    /// Components in the order red, green, blue, alpha.
    RGBA(u8, u8, u8, u8),
}

/// How a base color is shown.
#[derive(Debug, Clone, Copy, PartialEq, Eq, PartialOrd, Ord, Structural)]
pub enum ColorMode {
    /// The base color as it is.
    Solid,
    /// The base color with another color laid over it.
    Overlay(Color),
}

/// A base color together with the mode in which it is shown.
#[derive(Debug, Clone, Copy, PartialEq, Eq, PartialOrd, Ord, Structural)]
pub struct ColorState {
    pub color: Color,
    pub mode: ColorMode,
}

/// One channel of `fg` laid over `bg` with opacity `alpha / 255`, rounded
/// to the nearest step.
pub open spec fn over_channel(fg: u8, bg: u8, alpha: u8) -> u8 {
    ((fg * alpha + bg * (255 - alpha) + 127) / 255) as u8
}

fn lay_channel(fg: u8, bg: u8, alpha: u8) -> (r: u8)
    ensures
        r == over_channel(fg, bg, alpha),
{
    let f: u32 = fg as u32;
    let b: u32 = bg as u32;
    let a: u32 = alpha as u32;
    assert(f * a <= 255 * 255) by (nonlinear_arith)
        requires
            f <= 255,
            a <= 255,
    ;
    assert(b * (255 - a) <= 255 * (255 - a)) by (nonlinear_arith)
        requires
            b <= 255,
            a <= 255,
    ;
    assert(f * a + b * (255 - a) <= 255 * 255) by (nonlinear_arith)
        requires
            f <= 255,
            b <= 255,
            a <= 255,
    ;
    let sum: u32 = f * a + b * (255 - a) + 127;
    (sum / 255) as u8
}

impl Color {
    /// Source-over blend of a foreground pixel onto a background pixel,
    /// both given as four bytes in the order red, green, blue, alpha with
    /// colors that are not premultiplied. The foreground's alpha weighs
    /// the two; the result is opaque.
    pub fn src_over_blend(fg: &[u8], bg: &[u8]) -> (out: [u8; 4])
        requires
            fg@.len() == 4,
            bg@.len() == 4,
        ensures
            out@[0] == over_channel(fg@[0], bg@[0], fg@[3]),
            out@[1] == over_channel(fg@[1], bg@[1], fg@[3]),
            out@[2] == over_channel(fg@[2], bg@[2], fg@[3]),
            out@[3] == 255,
    {
        let a: u8 = fg[3];
        [lay_channel(fg[0], bg[0], a), lay_channel(fg[1], bg[1], a), lay_channel(fg[2], bg[2], a), 255]
    }

    /// The four components in the order red, green, blue, alpha.
    pub fn components(self) -> (out: [u8; 4])
        ensures
            out@ == seq![self->0, self->1, self->2, self->3],
    {
        match self {
            Color::RGBA(r, g, b, a) => [r, g, b, a],
        }
    }

    /// The color with the given components.
    pub fn from_components(c: [u8; 4]) -> (out: Color)
        ensures
            out == Color::RGBA(c@[0], c@[1], c@[2], c@[3]),
    {
        Color::RGBA(c[0], c[1], c[2], c[3])
    }
}

impl Default for Color {
    fn default() -> (r: Color)
        ensures
            r == white(),
    {
        white()
    }
}

impl Default for ColorMode {
    fn default() -> (r: ColorMode)
        ensures
            r == ColorMode::Solid,
    {
        ColorMode::Solid
    }
}

impl ColorState {
    /// A solid `color`.
    pub fn new(color: Color) -> (r: ColorState)
        ensures
            r == (ColorState { color, mode: ColorMode::Solid }),
    {
        ColorState { color, mode: ColorMode::Solid }
    }

    /// Changes the base color and leaves the mode alone.
    pub fn set_color(&mut self, color: Color)
        ensures
            *final(self) == (ColorState { color, mode: old(self).mode }),
    {
        self.color = color
    }

    /// Changes how the color is shown and leaves the base color alone.
    pub fn set_mode(&mut self, mode: ColorMode)
        ensures
            *final(self) == (ColorState { color: old(self).color, mode }),
    {
        self.mode = mode
    }
}

impl Default for ColorState {
    fn default() -> (r: ColorState)
        ensures
            r == (ColorState { color: white(), mode: ColorMode::Solid }),
    {
        ColorState { color: white(), mode: ColorMode::Solid }
    }
}

} // verus!

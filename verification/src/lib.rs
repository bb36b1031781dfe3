//! A retained-mode widget toolkit: a tree of widgets with layout
//! resolution, hit-testing and input dispatch.
//!
//! The toolkit is free of any window system. It works on fixed-point
//! numbers, takes the events it is fed and says what is to be painted
//! and what the actions of its widgets ask for; opening windows,
//! rasterizing, measuring text and running threads are left to the
//! application.
pub mod action;
pub mod render;
pub mod scalar;
pub mod ui;

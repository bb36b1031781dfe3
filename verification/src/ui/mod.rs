//! Building blocks of a user interface: colors, geometry, text, styling,
//! the widgets themselves, the messages that reach them and the tree
//! that holds them.
pub mod color;
pub mod dispatch;
pub mod dom;
pub mod event;
pub mod layout;
pub mod route;
pub mod state;
pub mod style;
pub mod sync;
pub mod text;
pub mod uid;
pub mod widget;

//! A bezier path editor core: design/screen coordinates, an identity-stable
//! path model, a document with a point selection, a pointer gesture
//! recognizer, and the pen and select tools that drive edits.
//!
//! Beside it stand the plain data behind a few toolkit widgets: a per-kind
//! event trace filter, the event debugger's text rendering, and the labels of
//! the calendar and clock widgets.

pub mod geom;
pub mod text;
pub mod trace;
pub mod debugger;
pub mod calendar;
pub mod path;
pub mod doc;
pub mod hit;
pub mod mouse;
pub mod tools;
pub mod editor;
pub mod guides;

//! Rendering core of a terminal component framework: a virtual canvas on which
//! a tree of components draw themselves, with every draw call traced so that
//! the caller learns which region of the canvas each component occupies.
//!
//! - [`rect`]: rectangles of the canvas, which may lie at negative
//!   coordinates, and rectangles of the screen; intersection and bounding
//!   union, with their laws.
//! - [`trace`]: the record of a component's bounding box and of the
//!   rectangles of the components drawn within it.
//! - [`viewport`]: the drawing context, which clips what components draw to
//!   the visible part of the canvas and traces all of it; the `Component`
//!   trait; the render pass.
//! - [`overlay`]: debug messages, printed over the finished screen.
//! - [`text`]: where the characters of a text lie in its encoding.
//! - [`screen`]: the character grid of `tui`, and what is taken for granted
//!   of it.
//!
//! Every function is verified against its contract, apart from those in
//! [`screen`] that call into `tui`. Methods of `Component` are for the
//! user to write; what is proved of a render pass holds for components that
//! draw through the viewport only.

pub mod overlay;
pub mod rect;
pub mod screen;
pub mod text;
pub mod trace;
pub mod viewport;

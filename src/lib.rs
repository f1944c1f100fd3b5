//! Declarative 2D graphics: the box-layout tree of elements with its
//! builders, the integer geometry that lays it out (flow sizes and slots,
//! container anchors, aspect-locked resizing, hit tests and scissor
//! clipping), styled text, and the segment plans that stroke a form's
//! paths and outlines.
//!
//! Colors, forms and opacities are real numbers, which the library carries
//! as type parameters without reading them.

pub mod element;
pub mod form;
pub mod layout;
pub mod text;
pub mod utils;

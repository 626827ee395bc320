//! A minimal GUI engine for small monochrome displays: a document tree of
//! boxes and text, a state-driven style cascade, a flexbox-subset layout
//! solver, a display-list builder and a clipping pixel compositor.
//!
//! Geometry arithmetic follows one policy throughout: coordinates saturate at
//! the `i32` range, sizes are floored at zero and capped at the `u32` range.

pub mod canvas;
pub mod commands;
pub mod document;
pub mod font;
pub mod image_buffer;
pub mod input;
pub mod layout_box;
pub mod layout_tree;
pub mod node;
pub mod primitives;
pub mod solid_color;
pub mod style_tree;
pub mod styles;
pub mod text;
pub mod timer;
pub mod utils;

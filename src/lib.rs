//! Retained-mode 2D vector painter: the state, cache and layout logic.
pub mod error;
pub mod ffi;
pub mod geometry;
pub mod mem_align;
pub mod painter;
pub mod path;
pub mod store;
pub mod text;
pub mod transform;

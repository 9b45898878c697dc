//! Translation layer between a terminal character grid and a browser-hosted
//! visual surface: cell-to-style composition, an incremental inline-style
//! patch engine, and the viewport-to-grid sizing model.
//!
//! The host environment (DOM nodes, geometry queries) stays outside; the
//! library works on plain values and states what each function yields.

pub mod cell;
pub mod color;
pub mod geometry;
pub mod laws;
pub mod patch;
pub mod style;
pub mod text;
pub mod width;

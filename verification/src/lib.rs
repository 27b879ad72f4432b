//! A software-rendered widget toolkit for a desktop quick-launcher:
//! constraint-based layout over a small closed set of widgets, a virtualizing
//! list, and a pixel-buffer compositor with premultiplied-alpha blending.
//! Layout and rendering are pure in-memory computations; window plumbing,
//! file-system crawling and text shaping live outside this crate and hand in
//! plain values.

pub mod config;
pub mod item;
pub mod launcher;
pub mod mode;
pub mod recent;
pub mod render;
pub mod ui;
pub mod util;

//! Batching of short-lived debug lines: segments submitted during a frame are
//! gathered into one interleaved vertex buffer and handed out as a single
//! line-segment draw, after which the batch starts empty again.
pub mod line_renderer;

pub use line_renderer::{DrawCall, LineRenderer};

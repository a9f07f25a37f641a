//! Escape-time rendering of the Mandelbrot set into an RGB pixel buffer.
//!
//! The arithmetic on the complex plane is supplied by the caller; this
//! library owns the iteration, the colouring, the buffer layout and the
//! framing of the pixel bytes.

pub mod color;
pub mod encode;
pub mod escape;
pub mod parse;
pub mod render;

pub use color::{color_from_result, color_from_value, Color};
pub use encode::{colors_to_u8s, encode_png, encoded, EncodeError};
pub use escape::escape_time;
pub use parse::{both, parse_complex, parse_pair, split_pair};
pub use render::{pixel_count, render, ITERATION_LIMIT};

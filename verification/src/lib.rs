//! Reads the five-digit code shown in a small fixed-format image.
//!
//! The image is cut into five character regions at fixed offsets, and each
//! region is classified by how many of its pixels are white.

pub mod classify;
pub mod codec;
pub mod grid;
pub mod segment;
pub mod solver;

pub use codec::{decode, DecodeError};
pub use grid::{grayscale, GrayscaleImage};
pub use solver::{solve_b64, solve_captcha, solve_gray};

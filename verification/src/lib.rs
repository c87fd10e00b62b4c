//! Conway's Game of Life on a bounded grid, and the pixel buffer it is drawn
//! into.
//!
//! - [`grid`] holds the cells and the rule that takes one generation to the
//!   next.
//! - [`seeder`] stamps patterns onto a grid; [`patterns`] proves what the named
//!   ones do when left alone.
//! - [`framebuffer`] is a buffer of packed colors with clipped pixel writes, and
//!   [`render`] draws a grid into it.
//! - [`snapshot`] encodes a buffer of colors as a BMP file.

pub mod framebuffer;
pub mod grid;
pub mod index;
pub mod patterns;
pub mod render;
pub mod seeder;
pub mod snapshot;

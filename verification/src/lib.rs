//! Verified core of a Mandelbrot viewer: the pixel buffer, the cyclic colour
//! mapping, and the pieces of the view logic that are integer arithmetic.

pub mod calculations;
pub mod cli;
pub mod pixeling;
pub mod render;
pub mod view;

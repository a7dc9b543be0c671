//! Integer core of a small ray tracer: the image buffer, the seedable
//! pseudorandom generator, command-line settings, and the index and
//! selection rules of the renderer and its anti-aliasing filter.

pub mod args;
pub mod grid;
pub mod ppm;
pub mod prng;
pub mod scene;
pub mod sampling;
pub mod texture;

//! Deterministic core of a Monte-Carlo path tracer: the seedable generator
//! that drives every stochastic choice, the face flag of a hit, and the PPM
//! encoding of a finished frame.
mod clock;
pub mod ppm;
pub mod rand;
pub mod ray;
pub mod render;

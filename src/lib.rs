//! Decision logic of a Monte-Carlo path tracer: which sphere a ray meets
//! first, when a light path ends and in what colour, and how the finished
//! picture is written out as a plain PPM file.
pub mod integrator;
pub mod nearest;
pub mod ppm;

//! Path-tracing renderer: the discrete core of the closest-hit scan, the
//! bounce recursion, texture lookup, image layout and mesh face parsing.

pub mod nearest;
pub mod framebuffer;
pub mod texture;
pub mod integrator;
pub mod obj;

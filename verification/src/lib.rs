//! The deciding core of a ray tracer.
//!
//! A renderer for spheres, planes, boxes, cylinders, cones and disks, placed
//! by affine frames and lit by point lights, does two kinds of work. It
//! computes: dot products, quotients, square roots, sums of light. And it
//! decides: whether a ray meets a surface, which of several surfaces it meets
//! first, whether a light is hidden, when a light path ends, when the picture
//! has to start anew. The computing is floating-point arithmetic and rounds;
//! it is left to the caller. The deciding is done here, on the bit patterns of
//! the numbers that the caller computed, and every decision is proved to be
//! the one its contract states.
//!
//! - [`scalar`]: single-precision numbers as bit patterns, with comparisons,
//!   sign operations and the cut to a byte, all exact;
//! - [`vector`]: vectors and matrices of such numbers, as data;
//! - [`types`]: materials, hits, the choice of the nearest hit, frames;
//! - [`shape`]: the surfaces, what is measured of a ray against them, and
//!   where the ray meets them;
//! - [`renderer`]: the ways of shading and their decisions;
//! - [`film`]: the buffer that gathers radiance frame after frame;
//! - [`control`]: what the viewer chose, and the clearing of the film when
//!   the choice changes.

pub mod control;
pub mod film;
pub mod renderer;
pub mod scalar;
pub mod shape;
pub mod types;
pub mod vector;

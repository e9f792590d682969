//! A verified offline render engine: fixed-point scalar geometry, a
//! bounding-volume hierarchy over a closed set of primitives, a thin-lens
//! camera, and a progressive double-buffered Monte Carlo sampler.

pub mod math;
pub mod vec;
pub mod ray;
pub mod aabb;
pub mod material;
pub mod primitives;
pub mod tracing;
pub mod bvh;
pub mod camera;
pub mod utility;

pub use math::Fixed;

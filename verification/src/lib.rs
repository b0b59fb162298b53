//! A progressive Monte-Carlo ray tracer with a verified core.
//!
//! Geometry, materials, the path integrator and the progressive-rendering
//! protocol all work on fixed-point scalars (see [`fixed`]), so that every
//! step of the arithmetic has an exact mathematical meaning that the
//! contracts can speak about.

pub mod camera;
pub mod fixed;
pub mod hittable;
pub mod material;
pub mod progress;
pub mod ray;
pub mod render;
pub mod rng;
pub mod scenes;
pub mod vec3;

pub use fixed::Fx;
pub use ray::Ray;
pub use vec3::Vec3;

//! A small ray tracer over fixed-point arithmetic: spheres, ambient and
//! directional lights, and a bounded number of mirror bounces per ray.
//!
//! Every scalar is a signed Q16.16 number, so each operation has an exact
//! integer meaning that the contracts state.
pub mod color;
pub mod math;
pub mod ray;
pub mod render;
pub mod scene;

pub use crate::color::Color;
pub use crate::math::{Scalar, Vector3};
pub use crate::ray::{Hit, Ray};
pub use crate::render::{calculate_color, trace, LightPath, Trace};
pub use crate::scene::{Object, Scene, Sphere};

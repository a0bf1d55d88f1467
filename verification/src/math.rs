//! Fixed-point scalars and three-dimensional vectors.
pub mod root;
pub mod scalar;
pub mod vector3;

pub use scalar::Scalar;
pub use vector3::Vector3;

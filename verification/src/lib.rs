//! A Monte Carlo path tracer over fixed-point arithmetic.
//!
//! Scalars are Q47.16 fixed-point numbers stored in `i64`; every arithmetic
//! operation saturates into a symmetric range and is specified exactly over
//! `int`, so the whole rendering pipeline — sphere intersection, material
//! scattering, the recursive radiance estimator and the sampling driver —
//! carries machine-checked contracts.

pub mod camera;
pub mod fx;
pub mod hittable;
pub mod render;
pub mod material;
pub mod ray;
pub mod rng;
pub mod sphere;
pub mod vec3;

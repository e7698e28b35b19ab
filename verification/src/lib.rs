//! A small ray tracer with a verified numeric core.
//!
//! Geometry, shading and image assembly are carried out in exact
//! fixed-point arithmetic (one unit is a millionth), so every stage of
//! the pipeline — ray/sphere intersection, nearest-hit selection over a
//! scene, material scattering, the recursive colour estimate and the
//! pixel buffer — has a precise contract.

pub mod camera;
pub mod fixed;
pub mod material;
pub mod ppm;
pub mod ray;
pub mod render;
pub mod renderable;
pub mod sampling;
pub mod sphere;
pub mod vector;

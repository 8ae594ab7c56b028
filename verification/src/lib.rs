//! A small Monte Carlo path tracer over fixed-point arithmetic.
//!
//! Every quantity that the renderer manipulates is a real number stored in
//! signed 16.16-style fixed point (an `i128` holding `value * SCALE`), so the
//! whole pipeline is expressed over integers and verified end to end.


pub mod camera;
pub mod color;
pub mod fx;
pub mod hittable;
pub mod interval;
pub mod material;
pub mod ray;
pub mod sphere;
pub mod utils;
pub mod vec3;

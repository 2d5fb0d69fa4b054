//! Conversion of 360-degree equirectangular panoramas into perspective
//! (rectilinear) views.
//!
//! The geometric core is verified: for every output pixel a camera-space ray
//! is built from the pinhole intrinsics, rotated by a yaw-then-pitch rotation
//! composed with the Rodrigues formula, projected onto the sphere's
//! longitude/latitude parameterization, and mapped to fractional source-image
//! coordinates. All of it runs in binary fixed-point arithmetic; the actual
//! pixel resampling and the image file handling are left to an unverified
//! shell around this crate.

pub mod fx;
pub mod laws;
pub mod mat3;
pub mod perspective;
pub mod sphere;
pub mod trig;

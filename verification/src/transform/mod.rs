//! Rotation, mirroring and cropping of images.
pub mod aperture;
pub mod mapping;
pub mod orientation;
pub mod paste;
pub mod pixels;
pub mod plan;

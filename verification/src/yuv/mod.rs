//! Images of luma and chroma planes.
pub mod avif;
pub mod convert;
pub mod crop;
pub mod heic;
pub mod image;
pub mod output;
pub mod rgba;
pub mod shown;
pub mod whole;

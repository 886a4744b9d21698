//! Decoding rules of HEIF, HEIC and AVIF still images.
pub mod alpha;
pub mod av1;
pub mod avif;
pub mod boxes;
pub mod bytes;
pub mod decode;
pub mod errors;
pub mod exif;
pub mod family;
pub mod fourcc;
pub mod grid;
pub mod guardrails;
pub mod hevc;
pub mod icc;
pub mod items;
pub mod laws;
pub mod layout;
pub mod linked;
pub mod output;
pub mod png_file;
pub mod rgba;
pub mod scaling;
pub mod text;
pub mod transform;
pub mod types;
pub mod uncompressed;
pub mod ycbcr;
pub mod yuv;

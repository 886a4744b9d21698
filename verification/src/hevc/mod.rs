//! HEVC streams: their units, their parameter sets, and decoded frames.
pub mod coded;
pub mod estimate;
pub mod frame;
pub mod nal;
pub mod sps;
pub mod stream;

//! Decoding of uncompressed (`unci`) items.
pub mod channel_map;
pub mod channels;
pub mod components;
pub mod compression;
pub mod frame;
pub mod interleave;
pub mod mixed;
pub mod multi_y;
pub mod output;
pub mod reader;
pub mod samples;
pub mod stream;
pub mod tiles;

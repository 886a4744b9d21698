//! What the parts of the library promise, in terms of what goes in and what
//! comes out.
pub mod apertures;
pub mod calls;
pub mod codes;
pub mod colours;
pub mod components;
pub mod files;
pub mod frames;
pub mod grids;
pub mod items;
pub mod maps;
pub mod messages;
pub mod metadata;
pub mod names;
pub mod outputs;
pub mod packing;
pub mod pictures;
pub mod placement;
pub mod places;
pub mod reading;
pub mod refusals;
pub mod results;
pub mod samples;
pub mod streams;
pub mod tiles;
pub mod turns;

//! Images made up of a grid of tiles.
pub mod canvas;
pub mod image;
pub mod layout;
pub mod planes;
pub mod tiles;
pub mod window;

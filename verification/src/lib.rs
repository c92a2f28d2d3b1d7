//! Terrain maps read off bitmap images.
//!
//! Every pixel of an image is classified by exact colour match against a
//! fixed dictionary of terrain tiles. The result is a grid of tile indices,
//! which can be rendered as text, one symbol per cell.
//!
//! * [`tile`]: the terrain kinds and the dictionary that identifies them.
//! * [`raster`]: a decoded image as plain values.
//! * [`image`]: reading a `bmp::Image` into a raster.
//! * [`scan`]: the order in which a raster is scanned.
//! * [`builder`]: classification of a whole raster into a grid.
//! * [`grid`]: the grid itself.
//! * [`render`]: the grid as text.

pub mod builder;
pub mod grid;
pub mod image;
pub mod raster;
pub mod render;
pub mod scan;
pub mod tile;

pub use builder::{MapBuilder, MapError, OnUnmatched, FIELD_HEIGHT, FIELD_WIDTH};
pub use grid::MapGrid;
pub use image::read_image;
pub use raster::Raster;
pub use render::render;
pub use tile::{Rgb, TileDefinition, TileDictionary, TileKind, TILE_COUNT};

//! Verified core of a tile-map asset pipeline.
//!
//! The library models a tile map as geometry metadata plus an ordered list
//! of tile rectangles, gives that model an exact on-disk document format
//! with a verified encoder and decoder, derives the sibling asset paths
//! that the two-file load protocol uses, and owns the loaded map entity
//! together with its GPU texture.

mod codec;
mod digits;
mod error;
mod map;
mod model;
mod num;
mod path;

pub use error::MapError;
pub use map::{atlas_sampling, metadata_from_file, Sampling, TileMap};
pub use model::{MapData, MapDataView, MapMetaData, MapMetaDataView, Tile, TileView};
pub use num::Num;
pub use path::derive_sibling_path;

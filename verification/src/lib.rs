//! Cybergrind patterns: a 16 by 16 grid of tiles, each with a height and an
//! optional prefab, and the text format they are stored in.

pub mod codec;
pub mod error;
pub mod grammar;
pub mod iter;
pub mod line;
pub mod pattern;
pub mod round_trip;
pub mod text;
pub mod tile;

pub use iter::{Iter, IterMut, Row, RowIter, RowIterMut, RowMut};
pub use line::Line;
pub use pattern::CyberGrindPattern;
pub use tile::Prefab;
pub use tile::Tile;
pub use tile::TileView;

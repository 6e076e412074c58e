//! Map objects: positions, tiles, grids and room/corridor shapes.

pub mod construct;
pub mod grid;
pub use self::grid::Grid;
pub mod pos;
pub use self::pos::Pos;
pub mod tile;
pub use self::tile::Tile;

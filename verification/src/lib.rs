//! The rules of a tile-based world that is streamed in level by level:
//! one grid of world coordinates for all levels, the index of blocked
//! tiles, the tracking of the level an entity is in, the set of levels to
//! keep resident, movement from tile to tile, and warps between tiles.
//!
//! Every function here works on plain values. The game around it reads them
//! out of its entities and resources before each call and writes them back
//! after it.

pub mod character;
pub mod collision;
pub mod json;
pub mod level_data;
pub mod level_loading;
pub mod timer;
pub mod util;
pub mod warp;

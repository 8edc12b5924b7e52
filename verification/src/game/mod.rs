//! The game: the shape of the world, and what a client keeps of it.

use vstd::prelude::*;

pub mod background;
pub mod blocks;
pub mod chunk;
pub mod chunk_map;
pub mod input;
pub mod player;
pub mod world;

pub use chunk::CHUNK_SIZE;
pub use chunk::Y_RANGE;
pub use input::Controls;

verus! {

/// The six directions in which the faces of a block look.
#[derive(Debug, Clone, Copy, PartialEq, Eq, Hash)]
pub enum Direction {
    PosX,
    NegX,
    PosY,
    NegY,
    PosZ,
    NegZ,
}

/// An input of the game, whatever device it comes from.
#[derive(Debug, Clone, Copy, PartialEq, Eq)]
pub enum Key {
    Forward,
    Backward,
    Left,
    Right,
    Up,
    Down,
    LeftClick,
    RightClick,
    DebugScreen,
}

/// Position of a chunk, in chunk units.
pub type ChunkIndex = [i32; 3];

/// Position of a cell inside its chunk, each component below `CHUNK_SIZE`.
pub type LocalBlockIndex = [u8; 3];

/// Identifier of a block kind; 0 is air.
pub type BlockType = u8;

} // verus!

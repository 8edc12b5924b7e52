//! Splitting world positions into chunk and cell, and the cells of one chunk.

use vstd::prelude::*;

use super::{ChunkIndex, LocalBlockIndex};

verus! {

/// Edge length of a chunk in cells.
pub const CHUNK_SIZE: u8 = 16;

/// Chunks are requested for y from `-Y_RANGE` up to `Y_RANGE - 1`.
pub const Y_RANGE: i32 = 4;

/// Number of cells in a chunk.
pub const CHUNK_VOLUME: usize = 4096;

/// The chunk coordinate that holds the block coordinate `v`.
pub open spec fn chunk_of(v: int) -> int {
    v / 16
}

/// The offset of the block coordinate `v` inside its chunk.
pub open spec fn local_of(v: int) -> int {
    v % 16
}

/// Where the cell `pos` sits in the flat array of its chunk.
pub open spec fn cell_index(pos: LocalBlockIndex) -> int {
    pos[0] * 256 + pos[1] * 16 + pos[2]
}

/// Whether every component of `pos` is a valid offset inside a chunk.
pub open spec fn in_chunk(pos: LocalBlockIndex) -> bool {
    pos[0] < 16 && pos[1] < 16 && pos[2] < 16
}

/// The chunk that holds the block at `pos`.
pub open spec fn block_chunk(pos: [i32; 3]) -> ChunkIndex {
    [
        chunk_of(pos[0] as int) as i32,
        chunk_of(pos[1] as int) as i32,
        chunk_of(pos[2] as int) as i32,
    ]
}

/// Where the block at `pos` stands among the cells of its chunk.
pub open spec fn block_cell(pos: [i32; 3]) -> int {
    local_of(pos[0] as int) * 256 + local_of(pos[1] as int) * 16 + local_of(pos[2] as int)
}

/// The cell of a block position lies inside its chunk.
pub proof fn lemma_block_cell_in_chunk(pos: [i32; 3])
    ensures
        0 <= block_cell(pos) < CHUNK_VOLUME,
{
}

/// Splits one coordinate by Euclidean division by the chunk size.
pub fn split_coordinate(v: i32) -> (r: (i32, u8))
    ensures
        r.0 == chunk_of(v as int),
        r.1 == local_of(v as int),
        r.0 * 16 + r.1 == v,
        r.1 < 16,
{
    if v >= 0 {
        (v / 16, (v % 16) as u8)
    } else {
        let m: i32 = -(v + 1);
        (-(m / 16) - 1, (15 - m % 16) as u8)
    }
}

/// Splits a block position into the position of its chunk and the cell
/// inside that chunk. Negative coordinates round towards negative infinity,
/// so the cell offsets are never negative.
pub fn block_position_to_chunk_index(pos: ChunkIndex) -> (r: (ChunkIndex, LocalBlockIndex))
    ensures
        forall|k: int| 0 <= k < 3 ==> r.0[k] == chunk_of(#[trigger] pos[k] as int),
        forall|k: int| 0 <= k < 3 ==> r.1[k] == local_of(#[trigger] pos[k] as int),
        forall|k: int| 0 <= k < 3 ==> r.0[k] * 16 + r.1[k] == #[trigger] pos[k],
        in_chunk(r.1),
        r.0 == block_chunk(pos),
        cell_index(r.1) == block_cell(pos),
{
    let x = split_coordinate(pos[0]);
    let y = split_coordinate(pos[1]);
    let z = split_coordinate(pos[2]);
    let r: (ChunkIndex, LocalBlockIndex) = ([x.0, y.0, z.0], [x.1, y.1, z.1]);
    assert(r.0 =~= block_chunk(pos));
    r
}

/// The cells of one chunk as the client holds them: a flat array in which
/// the cell `(x, y, z)` stands at `x * 256 + y * 16 + z`.
#[derive(Debug)]
pub struct ChunkData {
    blocks: Vec<u8>,
}

impl View for ChunkData {
    type V = Seq<u8>;

    closed spec fn view(&self) -> Seq<u8> {
        self.blocks@
    }
}

impl ChunkData {
    /// Whether the cell `pos` lies inside the data held.
    pub open spec fn holds(&self, pos: LocalBlockIndex) -> bool {
        cell_index(pos) < self@.len()
    }

    /// Takes over `data` as the cells of a chunk.
    pub fn new(data: Vec<u8>) -> (r: Self)
        ensures
            r@ == data@,
    {
        ChunkData { blocks: data }
    }

    /// How many cells there are.
    pub fn len(&self) -> (r: usize)
        ensures
            r == self@.len(),
    {
        self.blocks.len()
    }

    /// The block in the cell `pos`.
    pub fn get(&self, pos: LocalBlockIndex) -> (r: u8)
        requires
            self.holds(pos),
        ensures
            r == self@[cell_index(pos)],
    {
        let x: usize = pos[0] as usize;
        let y: usize = pos[1] as usize;
        let z: usize = pos[2] as usize;
        self.blocks[x * 256 + y * 16 + z]
    }

    /// Puts `block` into the cell `pos`; no other cell changes.
    pub fn set(&mut self, pos: LocalBlockIndex, block: u8)
        requires
            old(self).holds(pos),
        ensures
            final(self)@ == old(self)@.update(cell_index(pos), block),
    {
        let x: usize = pos[0] as usize;
        let y: usize = pos[1] as usize;
        let z: usize = pos[2] as usize;
        self.blocks[x * 256 + y * 16 + z] = block;
    }
}

} // verus!

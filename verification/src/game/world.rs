//! The world as a client knows it: the chunks it has been sent and the
//! players it has been told of.

use vstd::prelude::*;

use super::ChunkIndex;
use super::chunk::{
    block_cell, block_chunk, block_position_to_chunk_index, lemma_block_cell_in_chunk, ChunkData,
    CHUNK_VOLUME,
};
use super::chunk_map::ChunkMap;
use super::player::{Player, Players};

verus! {

spec fn cells_of(kept: Map<ChunkIndex, ChunkData>) -> Map<ChunkIndex, Seq<u8>> {
    Map::new(|p: ChunkIndex| kept.contains_key(p), |p: ChunkIndex| kept[p]@)
}

spec fn all_whole(kept: Map<ChunkIndex, ChunkData>) -> bool {
    forall|p: ChunkIndex| #[trigger] kept.contains_key(p) ==> kept[p]@.len() == CHUNK_VOLUME
}

proof fn lemma_keep(kept: Map<ChunkIndex, ChunkData>, pos: ChunkIndex, chunk: ChunkData)
    ensures
        cells_of(kept.insert(pos, chunk)) == cells_of(kept).insert(pos, chunk@),
        all_whole(kept) && chunk@.len() == CHUNK_VOLUME ==> all_whole(kept.insert(pos, chunk)),
{
    assert(cells_of(kept.insert(pos, chunk)) =~= cells_of(kept).insert(pos, chunk@));
}

proof fn lemma_drop(kept: Map<ChunkIndex, ChunkData>, pos: ChunkIndex)
    ensures
        cells_of(kept.remove(pos)) == cells_of(kept).remove(pos),
        all_whole(kept) ==> all_whole(kept.remove(pos)),
{
    assert(cells_of(kept.remove(pos)) =~= cells_of(kept).remove(pos));
}

/// The chunks after the cells `cells` have arrived for the chunk at `pos`:
/// they take the place of what was there, provided there are as many as a
/// chunk has cells.
pub open spec fn with_chunk(
    chunks: Map<ChunkIndex, Seq<u8>>,
    pos: ChunkIndex,
    cells: Seq<u8>,
) -> Map<ChunkIndex, Seq<u8>> {
    if cells.len() == CHUNK_VOLUME {
        chunks.insert(pos, cells)
    } else {
        chunks
    }
}

/// The chunks after the block at `pos` has become `block`: nothing changes
/// where the chunk is not loaded.
pub open spec fn with_block(chunks: Map<ChunkIndex, Seq<u8>>, pos: [i32; 3], block: u8) -> Map<
    ChunkIndex,
    Seq<u8>,
> {
    let at = block_chunk(pos);
    if chunks.contains_key(at) {
        chunks.insert(at, chunks[at].update(block_cell(pos), block))
    } else {
        chunks
    }
}

/// The world as a client knows it.
#[derive(Debug)]
pub struct World {
    chunks: ChunkMap<ChunkData>,
    players: Players,
}

impl World {
    /// The players.
    pub closed spec fn known(&self) -> Players {
        self.players
    }

    /// The loaded chunks: the cells of each, by the position of the chunk.
    pub closed spec fn chunks(&self) -> Map<ChunkIndex, Seq<u8>> {
        cells_of(self.chunks@)
    }

    /// Every loaded chunk is whole.
    pub closed spec fn wf(&self) -> bool {
        self.chunks.wf() && all_whole(self.chunks@)
    }

    /// A world of which nothing is known but the player at this client.
    pub fn new(local_player: Player) -> (r: Self)
        ensures
            r.wf(),
            r.chunks() == Map::<ChunkIndex, Seq<u8>>::empty(),
            r.known().local() == local_player,
            r.known().others() == Seq::<Player>::empty(),
    {
        let r = World { chunks: ChunkMap::new(), players: Players::new(local_player) };
        assert(r.chunks() =~= Map::<ChunkIndex, Seq<u8>>::empty());
        r
    }

    /// Whether the chunk at `pos` is loaded.
    pub fn is_loaded(&self, pos: &ChunkIndex) -> (r: bool)
        ensures
            r == self.chunks().contains_key(*pos),
    {
        self.chunks.contains(pos)
    }

    /// Whether there is a block, and not air, at `pos`. Where the chunk is
    /// not loaded there is none.
    pub fn is_block(&self, pos: [i32; 3]) -> (r: bool)
        requires
            self.wf(),
        ensures
            r == (self.chunks().contains_key(block_chunk(pos)) && self.chunks()[block_chunk(
                pos,
            )][block_cell(pos)] != 0),
    {
        let (chunk_index, block_index) = block_position_to_chunk_index(pos);
        proof {
            lemma_block_cell_in_chunk(pos);
        }
        match self.chunks.get(&chunk_index) {
            Some(chunk) => chunk.get(block_index) != 0,
            None => false,
        }
    }

    /// Takes in the cells that have arrived for the chunk at `pos`; fewer
    /// or more cells than a chunk has are dropped.
    pub fn load(&mut self, pos: ChunkIndex, data: Vec<u8>)
        requires
            old(self).wf(),
        ensures
            final(self).wf(),
            final(self).known() == old(self).known(),
            final(self).chunks() == with_chunk(old(self).chunks(), pos, data@),
    {
        if data.len() == CHUNK_VOLUME {
            let chunk = ChunkData::new(data);
            proof {
                lemma_keep(self.chunks@, pos, chunk);
            }
            self.chunks.insert(pos, chunk);
        }
    }

    /// Forgets the chunk at `pos`.
    pub fn unload(&mut self, pos: &ChunkIndex)
        requires
            old(self).wf(),
        ensures
            final(self).wf(),
            final(self).known() == old(self).known(),
            final(self).chunks() == old(self).chunks().remove(*pos),
    {
        proof {
            lemma_drop(self.chunks@, *pos);
        }
        self.chunks.remove(pos);
    }

    /// The block at `pos` has become `block`, whatever was there before.
    /// Nothing changes where the chunk is not loaded.
    pub fn update_block(&mut self, pos: [i32; 3], block: u8)
        requires
            old(self).wf(),
        ensures
            final(self).wf(),
            final(self).known() == old(self).known(),
            final(self).chunks() == with_block(old(self).chunks(), pos, block),
    {
        let (chunk_index, block_index) = block_position_to_chunk_index(pos);
        proof {
            lemma_block_cell_in_chunk(pos);
            assert forall|chunk: ChunkData|
                #![trigger self.chunks@.insert(chunk_index, chunk)]
                cells_of(self.chunks@.insert(chunk_index, chunk)) == cells_of(
                    self.chunks@,
                ).insert(chunk_index, chunk@) && (chunk@.len() == CHUNK_VOLUME ==> all_whole(
                    self.chunks@.insert(chunk_index, chunk),
                )) by {
                lemma_keep(self.chunks@, chunk_index, chunk);
            }
        }
        match self.chunks.get_mut(&chunk_index) {
            Some(chunk) => {
                chunk.set(block_index, block);
            },
            None => {},
        }
    }

    /// The players.
    pub fn players(&self) -> (r: &Players)
        ensures
            *r == self.known(),
    {
        &self.players
    }

    /// The players, to be told of what the server says.
    pub fn players_mut(&mut self) -> (r: &mut Players)
        ensures
            *r == old(self).known(),
            final(self).known() == *final(r),
            final(self).chunks() == old(self).chunks(),
            old(self).wf() ==> final(self).wf(),
    {
        &mut self.players
    }

    /// The positions of all loaded chunks, each once, in no particular
    /// order.
    pub fn loaded(&self) -> (r: Vec<ChunkIndex>)
        requires
            self.wf(),
        ensures
            r@.no_duplicates(),
            forall|pos: ChunkIndex| r@.contains(pos) <==> self.chunks().contains_key(pos),
    {
        self.chunks.positions()
    }
}

} // verus!

//! The chunks of the world: how they are generated, kept, changed and
//! written down.

use std::sync::Arc;
use vstd::prelude::*;

use crate::game::{ChunkIndex, LocalBlockIndex};
use crate::game::chunk::{
    block_cell, block_chunk, block_position_to_chunk_index, cell_index, lemma_block_cell_in_chunk,
    CHUNK_VOLUME,
};
use crate::game::chunk_map::ChunkMap;
use crate::net::framing::{
    begin, frame, get_pos, lemma_pos_round_trip, parse_pos, put_bytes, share, ID_BLOCK_UPDATE,
    ID_CHUNK,
};
use crate::net::wire::{pos_le, put_pos, u32_from_le};
use super::BlockUpdateMode;

verus! {

/// What a world is created from.
#[derive(Debug, Clone, Copy, PartialEq, Eq)]
pub struct Settings {
    seed: u32,
}

impl Settings {
    pub closed spec fn spec_seed(self) -> u32 {
        self.seed
    }

    pub fn new(seed: u32) -> (r: Self)
        ensures
            r.spec_seed() == seed,
    {
        Settings { seed }
    }

    /// The seed of the terrain.
    pub fn seed(&self) -> (r: u32)
        ensures
            r == self.spec_seed(),
    {
        self.seed
    }
}

/// Where a chunk is found in a chunk file.
#[derive(Debug, Clone, Copy, PartialEq, Eq)]
pub struct ChunkMeta {
    pub pos: [i32; 3],
    /// Where the cells of the chunk start in the file.
    pub offset: usize,
}

/// Number of columns in a chunk.
pub const CHUNK_COLUMNS: usize = 256;

/// The block that generation puts into the cell at height `yy` of a chunk
/// at height `y`, in a column whose highest solid block is at `top`.
pub open spec fn generated_block(y: int, yy: int, top: int) -> u8 {
    if y * 16 + yy <= top {
        1
    } else {
        0
    }
}

/// The cells of the chunk at height `y` over columns whose highest solid
/// blocks are at `tops`, the column `(xx, zz)` standing at `xx * 16 + zz`.
pub open spec fn generated(y: int, tops: Seq<i32>) -> Seq<u8> {
    Seq::new(
        CHUNK_VOLUME as nat,
        |i: int| generated_block(y, i / 16 % 16, tops[i / 256 * 16 + i % 16] as int),
    )
}

/// The cells of one chunk as the server holds them: 4096 block ids, the
/// cell `(x, y, z)` at `x * 256 + y * 16 + z`.
#[derive(Debug)]
pub struct ChunkData {
    blocks: Vec<u8>,
}

impl View for ChunkData {
    type V = Seq<u8>;

    closed spec fn view(&self) -> Seq<u8> {
        self.blocks@
    }
}

impl ChunkData {
    /// A chunk holds one block for each of its cells.
    pub open spec fn wf(&self) -> bool {
        self@.len() == CHUNK_VOLUME
    }

    /// A chunk of air.
    pub fn empty() -> (r: Self)
        ensures
            r.wf(),
            forall|i: int| 0 <= i < CHUNK_VOLUME ==> r@[i] == 0,
    {
        ChunkData { blocks: vec![0u8; 4096] }
    }

    /// Takes over `blocks` as the cells of a chunk, if there are as many as
    /// a chunk has cells.
    pub fn from_blocks(blocks: Vec<u8>) -> (r: Option<Self>)
        ensures
            r is Some <==> blocks@.len() == CHUNK_VOLUME,
            r matches Some(c) ==> c@ == blocks@ && c.wf(),
    {
        if blocks.len() == 4096 {
            Some(ChunkData { blocks })
        } else {
            None
        }
    }

    /// The terrain of the chunk at `pos`: in each column, stone up to and
    /// including the height given for it in `column_tops`, air above. The
    /// column `(xx, zz)` of the chunk stands at `xx * 16 + zz`.
    pub fn generate(pos: &[i32; 3], column_tops: &[i32; CHUNK_COLUMNS]) -> (r: Self)
        ensures
            r.wf(),
            r@ == generated(pos[1] as int, column_tops@),
    {
        let base: i64 = pos[1] as i64 * 16;
        let mut blocks: Vec<u8> = Vec::with_capacity(4096);
        let mut i: usize = 0;
        while i < 4096
            invariant
                i <= 4096,
                base == pos[1] * 16,
                blocks@.len() == i,
                forall|j: int|
                    0 <= j < i ==> #[trigger] blocks@[j] == generated_block(
                        pos[1] as int,
                        j / 16 % 16,
                        column_tops@[j / 256 * 16 + j % 16] as int,
                    ),
            decreases 4096 - i,
        {
            let yy: i64 = (i / 16 % 16) as i64;
            let top: i64 = column_tops[i / 256 * 16 + i % 16] as i64;
            blocks.push(if base + yy <= top { 1 } else { 0 });
            i = i + 1;
        }
        assert(blocks@ =~= generated(pos[1] as int, column_tops@));
        ChunkData { blocks }
    }

    /// The block in the cell `pos`.
    pub fn get(&self, pos: LocalBlockIndex) -> (r: u8)
        requires
            self.wf(),
            cell_index(pos) < CHUNK_VOLUME,
        ensures
            r == self@[cell_index(pos)],
    {
        let x: usize = pos[0] as usize;
        let y: usize = pos[1] as usize;
        let z: usize = pos[2] as usize;
        self.blocks[x * 256 + y * 16 + z]
    }

    /// Puts `block` into the cell `pos`; no other cell changes.
    pub fn set(&mut self, pos: [usize; 3], block: u8)
        requires
            old(self).wf(),
            pos[0] * 256 + pos[1] * 16 + pos[2] < CHUNK_VOLUME,
        ensures
            final(self).wf(),
            final(self)@ == old(self)@.update(pos[0] * 256 + pos[1] * 16 + pos[2], block),
    {
        assert(pos[0] < 16 && pos[1] < 256);
        self.blocks[pos[0] * 256 + pos[1] * 16 + pos[2]] = block;
    }

    /// The cell `pos`, to be read or overwritten in place.
    pub fn block_mut(&mut self, pos: LocalBlockIndex) -> (r: &mut u8)
        requires
            old(self).wf(),
            cell_index(pos) < CHUNK_VOLUME,
        ensures
            *r == old(self)@[cell_index(pos)],
            final(self)@ == old(self)@.update(cell_index(pos), *final(r)),
            final(self).wf(),
    {
        let x: usize = pos[0] as usize;
        let y: usize = pos[1] as usize;
        let z: usize = pos[2] as usize;
        &mut self.blocks[x * 256 + y * 16 + z]
    }

    /// All cells, in storage order.
    pub fn blocks(&self) -> (r: &[u8])
        ensures
            r@ == self@,
    {
        self.blocks.as_slice()
    }
}

/// The frame that carries a chunk to a client: the id, the position of the
/// chunk and its 4096 cells.
pub fn create_chunk_package(chunk: &ChunkData, pos: &[i32; 3]) -> (r: Arc<[u8]>)
    requires
        chunk.wf(),
    ensures
        r@ == frame(ID_CHUNK, pos_le(*pos) + chunk@),
{
    let mut out = begin(ID_CHUNK, 4110);
    put_pos(&mut out, pos);
    put_bytes(&mut out, chunk.blocks());
    assert(out@ =~= frame(ID_CHUNK, pos_le(*pos) + chunk@));
    share(out)
}

/// The frame that tells what the cell at `pos` holds: the id, the position,
/// the block and three zero bytes.
pub fn create_block_update_package(pos: &[i32; 3], block: u8) -> (r: Arc<[u8]>)
    ensures
        r@ == frame(ID_BLOCK_UPDATE, pos_le(*pos) + seq![block, 0u8, 0u8, 0u8]),
{
    let mut out = begin(ID_BLOCK_UPDATE, 18);
    put_pos(&mut out, pos);
    out.push(block);
    out.push(0);
    out.push(0);
    out.push(0);
    assert(out@ =~= frame(ID_BLOCK_UPDATE, pos_le(*pos) + seq![block, 0u8, 0u8, 0u8]));
    share(out)
}


/// What a cell holds after a request to put `requested` into it: removing
/// always empties it, placing only fills an empty cell.
pub open spec fn resolved_block(current: u8, requested: u8) -> u8 {
    if requested == 0 || current == 0 {
        requested
    } else {
        current
    }
}

/// The loaded chunks after a request to put `requested` at `pos`: nothing
/// changes where the chunk is not loaded.
pub open spec fn updated_chunks(
    chunks: Map<ChunkIndex, Seq<u8>>,
    pos: [i32; 3],
    requested: u8,
) -> Map<ChunkIndex, Seq<u8>> {
    let at = block_chunk(pos);
    if chunks.contains_key(at) {
        chunks.insert(
            at,
            chunks[at].update(
                block_cell(pos),
                resolved_block(chunks[at][block_cell(pos)], requested),
            ),
        )
    } else {
        chunks
    }
}

/// The block that everybody is told of after a request to put `requested`
/// at `pos`, if anybody is told anything.
pub open spec fn update_echo(chunks: Map<ChunkIndex, Seq<u8>>, pos: [i32; 3], requested: u8)
    -> Option<u8> {
    let at = block_chunk(pos);
    if chunks.contains_key(at) {
        Some(resolved_block(chunks[at][block_cell(pos)], requested))
    } else {
        None
    }
}

/// The frame that answers a block update: empty where nobody is told
/// anything.
pub open spec fn echo_package(pos: [i32; 3], echo: Option<u8>) -> Seq<u8> {
    match echo {
        Some(block) => frame(ID_BLOCK_UPDATE, pos_le(pos) + seq![block, 0u8, 0u8, 0u8]),
        None => Seq::empty(),
    }
}

/// Length of one record of the chunk file: a position and the cells.
pub const RECORD_SIZE: usize = 4108;

/// The chunks that are loaded once the records in `s` have been read on
/// top of `loaded`, a later record replacing an earlier one for the same
/// position. Reading stops where fewer bytes than a position are left;
/// `None` where a record breaks off inside its cells.
pub open spec fn load_records(loaded: Map<ChunkIndex, Seq<u8>>, s: Seq<u8>) -> Option<
    Map<ChunkIndex, Seq<u8>>,
>
    decreases s.len(),
{
    if s.len() < 12 {
        Some(loaded)
    } else if s.len() < RECORD_SIZE {
        None
    } else {
        load_records(
            loaded.insert(parse_pos(s), s.subrange(12, RECORD_SIZE as int)),
            s.skip(RECORD_SIZE as int),
        )
    }
}

/// The chunk file breaks off inside the record that starts at `offset`.
#[derive(Debug, Clone, Copy, PartialEq, Eq)]
pub struct TruncatedRecord {
    pub offset: usize,
}

/// Reading `count` whole records and then one more record gives what the
/// whole records give, with the chunk of the last record put in.
pub proof fn lemma_load_one_more(
    loaded: Map<ChunkIndex, Seq<u8>>,
    records: Seq<u8>,
    count: nat,
    pos: ChunkIndex,
    cells: Seq<u8>,
)
    requires
        records.len() == count * RECORD_SIZE,
        cells.len() == CHUNK_VOLUME,
    ensures
        load_records(loaded, records) is Some,
        load_records(loaded, records + (pos_le(pos) + cells)) == Some(
            load_records(loaded, records)->0.insert(pos, cells),
        ),
    decreases count,
{
    let record = pos_le(pos) + cells;
    let all = records + record;
    lemma_pos_round_trip(pos, cells);
    if count == 0 {
        assert(all =~= record);
        assert(parse_pos(record) =~= pos);
        assert(record.subrange(12, RECORD_SIZE as int) =~= cells);
        assert(record.skip(RECORD_SIZE as int).len() == 0);
        assert(load_records(loaded.insert(pos, cells), record.skip(RECORD_SIZE as int)) == Some(
            loaded.insert(pos, cells),
        ));
    } else {
        assert(records.len() >= RECORD_SIZE);
        let first = loaded.insert(parse_pos(records), records.subrange(12, RECORD_SIZE as int));
        let rest = records.skip(RECORD_SIZE as int);
        assert(parse_pos(all) =~= parse_pos(records)) by {
            reveal(u32_from_le);
        }
        assert(all.subrange(12, RECORD_SIZE as int) =~= records.subrange(12, RECORD_SIZE as int));
        assert(all.skip(RECORD_SIZE as int) =~= rest + record);
        lemma_load_one_more(first, rest, (count - 1) as nat, pos, cells);
        assert(load_records(loaded, records) == load_records(first, rest));
        assert(load_records(loaded, all) == load_records(first, rest + record));
    }
}

spec fn cells_of(kept: Map<ChunkIndex, ChunkData>) -> Map<ChunkIndex, Seq<u8>> {
    Map::new(|p: ChunkIndex| kept.contains_key(p), |p: ChunkIndex| kept[p]@)
}

spec fn all_whole(kept: Map<ChunkIndex, ChunkData>) -> bool {
    forall|p: ChunkIndex| #[trigger] kept.contains_key(p) ==> kept[p].wf()
}

proof fn lemma_store(kept: Map<ChunkIndex, ChunkData>, pos: ChunkIndex, chunk: ChunkData)
    ensures
        cells_of(kept.insert(pos, chunk)) == cells_of(kept).insert(pos, chunk@),
        all_whole(kept) && chunk.wf() ==> all_whole(kept.insert(pos, chunk)),
{
    assert(cells_of(kept.insert(pos, chunk)) =~= cells_of(kept).insert(pos, chunk@));
}

/// The world as the server holds it: its settings and the chunks that have
/// been generated or loaded so far.
#[derive(Debug)]
pub struct ServerWorld {
    settings: Settings,
    loaded_chunks: ChunkMap<ChunkData>,
}

impl ServerWorld {
    /// The loaded chunks: the cells of each, by the position of the chunk.
    pub closed spec fn chunks(&self) -> Map<ChunkIndex, Seq<u8>> {
        cells_of(self.loaded_chunks@)
    }

    /// The settings the world was made with.
    pub closed spec fn spec_settings(&self) -> Settings {
        self.settings
    }

    /// Every loaded chunk is whole.
    pub closed spec fn wf(&self) -> bool {
        self.loaded_chunks.wf() && all_whole(self.loaded_chunks@)
    }

    /// In a well-formed world every loaded chunk has all its cells.
    pub proof fn lemma_chunks_whole(&self)
        requires
            self.wf(),
        ensures
            all_chunks_whole(self.chunks()),
    {
    }

    /// A world in which no chunk is loaded yet.
    pub fn new(settings: Settings) -> (r: Self)
        ensures
            r.wf(),
            r.spec_settings() == settings,
            r.chunks() == Map::<ChunkIndex, Seq<u8>>::empty(),
    {
        let r = ServerWorld { settings, loaded_chunks: ChunkMap::new() };
        assert(r.chunks() =~= Map::<ChunkIndex, Seq<u8>>::empty());
        r
    }

    /// The settings the world was made with.
    pub fn settings(&self) -> (r: Settings)
        ensures
            r == self.spec_settings(),
    {
        self.settings
    }

    /// Whether the chunk at `pos` is loaded.
    pub fn is_loaded(&self, pos: &[i32; 3]) -> (r: bool)
        ensures
            r == self.chunks().contains_key(*pos),
    {
        self.loaded_chunks.contains(pos)
    }

    /// The cell that holds the block at `pos`, to be read or overwritten in
    /// place, or `None` if its chunk is not loaded.
    pub fn get_block_mut(&mut self, pos: &[i32; 3]) -> (r: Option<&mut u8>)
        requires
            old(self).wf(),
        ensures
            r is Some <==> old(self).chunks().contains_key(block_chunk(*pos)),
            r is None ==> final(self).chunks() == old(self).chunks(),
            r matches Some(cell) ==> *cell == old(self).chunks()[block_chunk(*pos)][block_cell(
                *pos,
            )] && final(self).chunks() == old(self).chunks().insert(
                block_chunk(*pos),
                old(self).chunks()[block_chunk(*pos)].update(block_cell(*pos), *final(cell)),
            ),
            final(self).wf(),
            final(self).spec_settings() == old(self).spec_settings(),
    {
        let (chunk_pos, in_chunk_pos) = block_position_to_chunk_index(*pos);
        proof {
            assert forall|chunk: ChunkData|
                #![trigger self.loaded_chunks@.insert(chunk_pos, chunk)]
                cells_of(self.loaded_chunks@.insert(chunk_pos, chunk)) == cells_of(
                    self.loaded_chunks@,
                ).insert(chunk_pos, chunk@) && (chunk.wf() ==> all_whole(
                    self.loaded_chunks@.insert(chunk_pos, chunk),
                )) by {
                lemma_store(self.loaded_chunks@, chunk_pos, chunk);
            }
        }
        match self.loaded_chunks.get_mut(&chunk_pos) {
            Some(chunk) => Some(chunk.block_mut(in_chunk_pos)),
            None => None,
        }
    }

    /// The frame that carries the chunk at `pos`, if it is loaded.
    pub fn loaded_chunk_data(&self, pos: &[i32; 3]) -> (r: Option<Arc<[u8]>>)
        requires
            self.wf(),
        ensures
            r is Some <==> self.chunks().contains_key(*pos),
            r matches Some(package) ==> package@ == frame(
                ID_CHUNK,
                pos_le(*pos) + self.chunks()[*pos],
            ),
    {
        match self.loaded_chunks.get(pos) {
            Some(chunk) => Some(create_chunk_package(chunk, pos)),
            None => None,
        }
    }

    /// The frame that carries the chunk at `pos`. A chunk that is not loaded
    /// yet is generated over `column_tops` and kept; for a loaded chunk
    /// `column_tops` is not looked at.
    pub fn get_chunk_data(&mut self, pos: &[i32; 3], column_tops: &[i32; CHUNK_COLUMNS]) -> (r:
        Arc<[u8]>)
        requires
            old(self).wf(),
        ensures
            final(self).wf(),
            final(self).spec_settings() == old(self).spec_settings(),
            final(self).chunks() == if old(self).chunks().contains_key(*pos) {
                old(self).chunks()
            } else {
                old(self).chunks().insert(*pos, generated(pos[1] as int, column_tops@))
            },
            r@ == frame(ID_CHUNK, pos_le(*pos) + final(self).chunks()[*pos]),
    {
        if let Some(chunk) = self.loaded_chunks.get(pos) {
            return create_chunk_package(chunk, pos);
        }
        let new_chunk = ChunkData::generate(pos, column_tops);
        let package = create_chunk_package(&new_chunk, pos);
        proof {
            lemma_store(self.loaded_chunks@, *pos, new_chunk);
        }
        self.loaded_chunks.insert(*pos, new_chunk);
        package
    }

    /// Carries out a request to put `new_block` at `pos` and gives the frame
    /// that tells everybody what the cell holds afterwards. Removing (block
    /// 0) always empties the cell; placing fills it only if it is empty.
    /// Where the chunk is not loaded nothing changes and the frame is empty.
    pub fn process_block_update(&mut self, pos: &[i32; 3], new_block: u8) -> (r: Arc<[u8]>)
        requires
            old(self).wf(),
        ensures
            final(self).wf(),
            final(self).spec_settings() == old(self).spec_settings(),
            final(self).chunks() == updated_chunks(old(self).chunks(), *pos, new_block),
            r@ == echo_package(*pos, update_echo(old(self).chunks(), *pos, new_block)),
    {
        proof {
            self.lemma_chunks_whole();
        }
        let package = if let Some(block) = self.get_block_mut(pos) {
            match BlockUpdateMode::of(new_block) {
                BlockUpdateMode::Destroy => {
                    *block = 0;
                    create_block_update_package(pos, 0)
                },
                BlockUpdateMode::Place => {
                    if *block == 0 {
                        *block = new_block;
                        create_block_update_package(pos, new_block)
                    } else {
                        let current: u8 = *block;
                        create_block_update_package(pos, current)
                    }
                },
            }
        } else {
            share(Vec::new())
        };
        assert(self.chunks() =~= updated_chunks(old(self).chunks(), *pos, new_block));
        assert(package@ =~= echo_package(
            *pos,
            update_echo(old(self).chunks(), *pos, new_block),
        ));
        package
    }

    /// The world that the chunk file `chunk_file` describes: its records are
    /// read in order until fewer bytes than a position are left. An empty
    /// file gives an empty world.
    pub fn from_files(settings: Settings, chunk_file: &[u8]) -> (r: Result<Self, TruncatedRecord>)
        ensures
            match load_records(Map::empty(), chunk_file@) {
                Some(chunks) => r matches Ok(world) && world.wf() && world.chunks() == chunks
                    && world.spec_settings() == settings,
                None => r matches Err(e) && e.offset == chunk_file@.len() / (RECORD_SIZE as nat)
                    * RECORD_SIZE,
            },
    {
        let mut world = ServerWorld::new(settings);
        let len = chunk_file.len();
        let mut at: usize = 0;
        let ghost mut count: nat = 0;
        assert(chunk_file@.skip(0) =~= chunk_file@);
        while len - at >= 12
            invariant
                len == chunk_file@.len(),
                at <= len,
                at == count * RECORD_SIZE,
                world.wf(),
                world.spec_settings() == settings,
                load_records(world.chunks(), chunk_file@.skip(at as int)) == load_records(
                    Map::empty(),
                    chunk_file@,
                ),
            decreases len - at,
        {
            let ghost rest = chunk_file@.skip(at as int);
            if len - at < 4108 {
                return Err(TruncatedRecord { offset: at });
            }
            let record = vstd::slice::slice_subrange(chunk_file, at, at + 4108);
            let pos = get_pos(record);
            let cells = vstd::slice::slice_to_vec(vstd::slice::slice_subrange(record, 12, 4108));
            proof {
                reveal(u32_from_le);
                assert(pos =~= parse_pos(rest));
                assert(cells@ =~= rest.subrange(12, RECORD_SIZE as int));
                assert(rest.skip(RECORD_SIZE as int) =~= chunk_file@.skip(at + 4108));
            }
            let chunk = ChunkData { blocks: cells };
            proof {
                lemma_store(world.loaded_chunks@, pos, chunk);
            }
            world.loaded_chunks.insert(pos, chunk);
            at = at + 4108;
            proof {
                count = count + 1;
            }
        }
        Ok(world)
    }

    /// The chunk file for this world: one record for each loaded chunk and
    /// nothing else, in no particular order. Reading it back gives the same
    /// chunks.
    pub fn sync_to_disk(&self) -> (r: Vec<u8>)
        requires
            self.wf(),
        ensures
            load_records(Map::empty(), r@) == Some(self.chunks()),
            r@.len() == self.chunks().len() * RECORD_SIZE,
    {
        let positions = self.loaded_chunks.positions();
        let mut out: Vec<u8> = Vec::new();
        let ghost mut written: Map<ChunkIndex, Seq<u8>> = Map::empty();
        let mut i: usize = 0;
        while i < positions.len()
            invariant
                i <= positions@.len(),
                self.wf(),
                forall|pos: ChunkIndex|
                    positions@.contains(pos) <==> self.loaded_chunks@.contains_key(pos),
                out@.len() == i * RECORD_SIZE,
                load_records(Map::empty(), out@) == Some(written),
                forall|pos: ChunkIndex| #[trigger]
                    written.contains_key(pos) <==> positions@.take(i as int).contains(pos),
                forall|pos: ChunkIndex| #[trigger]
                    written.contains_key(pos) ==> written[pos] == self.chunks()[pos],
            decreases positions@.len() - i,
        {
            let pos = positions[i];
            assert(positions@.contains(pos));
            let chunk = self.loaded_chunks.get(&pos).unwrap();
            let ghost before = out@;
            let ghost earlier = written;
            proof {
                lemma_pos_round_trip(pos, chunk@);
                lemma_load_one_more(Map::empty(), before, i as nat, pos, chunk@);
            }
            put_pos(&mut out, &pos);
            put_bytes(&mut out, chunk.blocks());
            proof {
                assert(out@ =~= before + (pos_le(pos) + chunk@));
                written = written.insert(pos, chunk@);
                let done = positions@.take(i as int);
                let next = positions@.take(i + 1);
                assert(next =~= done.push(pos));
                assert forall|p: ChunkIndex| #[trigger]
                    written.contains_key(p) <==> next.contains(p) by {
                    if done.contains(p) {
                        let j = choose|j: int| 0 <= j < done.len() && done[j] == p;
                        assert(next[j] == p);
                    }
                    if p == pos {
                        assert(next[i as int] == p);
                    }
                    if next.contains(p) && p != pos {
                        let j = choose|j: int| 0 <= j < next.len() && next[j] == p;
                        assert(done[j] == p);
                    }
                }
            }
            i = i + 1;
        }
        proof {
            assert(positions@.take(positions@.len() as int) =~= positions@);
            assert(written =~= self.chunks());
            assert(self.chunks().dom() =~= self.loaded_chunks@.dom());
        }
        out
    }
}

/// Whether every chunk of `chunks` has all its cells.
pub open spec fn all_chunks_whole(chunks: Map<ChunkIndex, Seq<u8>>) -> bool {
    forall|at: ChunkIndex| #[trigger] chunks.contains_key(at) ==> chunks[at].len() == CHUNK_VOLUME
}

/// Removing the block of a cell again and again changes nothing after the
/// first time, and everybody is told the same each time.
pub proof fn lemma_destroy_is_idempotent(chunks: Map<ChunkIndex, Seq<u8>>, pos: [i32; 3])
    requires
        all_chunks_whole(chunks),
    ensures
        updated_chunks(updated_chunks(chunks, pos, 0), pos, 0) == updated_chunks(chunks, pos, 0),
        update_echo(updated_chunks(chunks, pos, 0), pos, 0) == update_echo(chunks, pos, 0),
{
    lemma_block_cell_in_chunk(pos);
    let once = updated_chunks(chunks, pos, 0);
    let twice = updated_chunks(once, pos, 0);
    if chunks.contains_key(block_chunk(pos)) {
        assert(twice[block_chunk(pos)] =~= once[block_chunk(pos)]);
    }
    assert(twice =~= once);
}

/// Of two placements into one empty cell of a loaded chunk the first wins:
/// the cell holds the first block, and everybody is told of the first block
/// both times.
pub proof fn lemma_first_placement_wins(
    chunks: Map<ChunkIndex, Seq<u8>>,
    pos: [i32; 3],
    first: u8,
    second: u8,
)
    requires
        all_chunks_whole(chunks),
        chunks.contains_key(block_chunk(pos)),
        chunks[block_chunk(pos)][block_cell(pos)] == 0,
        first != 0,
        second != 0,
    ensures
        update_echo(chunks, pos, first) == Some(first),
        update_echo(updated_chunks(chunks, pos, first), pos, second) == Some(first),
        updated_chunks(updated_chunks(chunks, pos, first), pos, second)[block_chunk(
            pos,
        )][block_cell(pos)] == first,
        updated_chunks(updated_chunks(chunks, pos, first), pos, second) == updated_chunks(
            chunks,
            pos,
            first,
        ),
{
    lemma_block_cell_in_chunk(pos);
    let once = updated_chunks(chunks, pos, first);
    let twice = updated_chunks(once, pos, second);
    assert(twice[block_chunk(pos)] =~= once[block_chunk(pos)]);
    assert(twice =~= once);
}

/// A block update is still there after the world has been written down and
/// read back: whatever chunk file reads back as the chunks after the
/// update holds, in the cell of the update, what the update left there.
pub proof fn lemma_update_survives_restart(
    chunks: Map<ChunkIndex, Seq<u8>>,
    pos: [i32; 3],
    requested: u8,
    chunk_file: Seq<u8>,
)
    requires
        all_chunks_whole(chunks),
        chunks.contains_key(block_chunk(pos)),
        load_records(Map::empty(), chunk_file) == Some(updated_chunks(chunks, pos, requested)),
    ensures
        load_records(Map::empty(), chunk_file)->0[block_chunk(pos)][block_cell(pos)]
            == resolved_block(chunks[block_chunk(pos)][block_cell(pos)], requested),
        update_echo(chunks, pos, requested) == Some(
            load_records(Map::empty(), chunk_file)->0[block_chunk(pos)][block_cell(pos)],
        ),
{
    lemma_block_cell_in_chunk(pos);
}

} // verus!

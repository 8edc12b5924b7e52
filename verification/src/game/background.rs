//! The network half of a client: the frames it gets, the frames it sends,
//! and which chunks it asks for as the camera moves.

use vstd::prelude::*;
use vstd::utf8::decode_utf8;

use crate::net::framing::{
    frame, parse_pos, prefixed_body, FrameShape, ID_BLOCK_UPDATE, ID_CHUNK, ID_LOGOUT,
    ID_PLAYER_LOGIN, ID_PLAYER_POSITION,
};
use crate::net::messages::{read_chunk_data, request_chunk_package, CHUNK_PAYLOAD_SIZE};
use crate::net::packages::{
    ClientPackagePlayerPosition, PackageBlockUpdate, ServerPackageLogout,
    ServerPackagePlayerPosition, ServerPlayerLogin,
};
use crate::net::wire::{pos_le, u16_from_le, u64_from_le};
use super::ChunkIndex;
use super::chunk::{chunk_of, split_coordinate, Y_RANGE};
use super::player::Player;
use super::world::{with_block, with_chunk, World};

verus! {

/// How many chunks the client keeps around the camera in x and z.
pub const VIEW_DISTANCE: i32 = 8;

/// What the main loop tells the network half.
#[derive(Debug, Clone, Copy, PartialEq, Eq)]
pub enum Update {
    /// The camera is here and looks there: position, pitch, yaw, and the
    /// block column `(x, z)` that the camera is over.
    Pos([u64; 3], u32, u32, [i32; 2]),
    /// The player put this block at this position.
    Block([i32; 3], u8),
    /// The game is over.
    Exit,
}

/// What the server tells a client.
#[derive(Debug, PartialEq, Eq)]
pub enum Package {
    /// The cells of the chunk at this position.
    Chunk([i32; 3], Vec<u8>),
    PlayerPositionUpdate(ServerPackagePlayerPosition),
    PlayerLogin(ServerPlayerLogin),
    BlockUpdate(PackageBlockUpdate),
    PlayerLogout(ServerPackageLogout),
}

/// What follows the id `id` in a frame from the server.
pub open spec fn package_shape(id: u16) -> FrameShape {
    if id == ID_CHUNK {
        FrameShape::Fixed(CHUNK_PAYLOAD_SIZE)
    } else if id == ID_BLOCK_UPDATE {
        FrameShape::Fixed(PackageBlockUpdate::SIZE)
    } else if id == ID_PLAYER_POSITION {
        FrameShape::Fixed(ServerPackagePlayerPosition::SIZE)
    } else if id == ID_LOGOUT {
        FrameShape::Fixed(ServerPackageLogout::SIZE)
    } else if id == ID_PLAYER_LOGIN {
        FrameShape::Prefixed(8)
    } else {
        FrameShape::Unknown
    }
}

/// Whether `package` is what the frame with this id and payload says.
pub open spec fn is_package(id: u16, payload: Seq<u8>, package: Package) -> bool {
    match package {
        Package::Chunk(pos, cells) => id == ID_CHUNK && payload.len() == CHUNK_PAYLOAD_SIZE && pos
            == parse_pos(payload) && cells@ == payload.subrange(12, CHUNK_PAYLOAD_SIZE as int),
        Package::PlayerPositionUpdate(p) => id == ID_PLAYER_POSITION && payload.len()
            == ServerPackagePlayerPosition::SIZE && p == ServerPackagePlayerPosition::parse(
            payload,
        ),
        Package::PlayerLogin(p) => id == ID_PLAYER_LOGIN && ServerPlayerLogin::parses(payload)
            && p.name@ == decode_utf8(prefixed_body(payload)) && p.uid == u64_from_le(
            payload.skip(2 + u16_from_le(payload)),
        ),
        Package::BlockUpdate(p) => id == ID_BLOCK_UPDATE && payload.len()
            == PackageBlockUpdate::SIZE && p == PackageBlockUpdate::parse(payload),
        Package::PlayerLogout(p) => id == ID_LOGOUT && payload.len() == ServerPackageLogout::SIZE
            && p == ServerPackageLogout::parse(payload),
    }
}

/// Whether the frame with this id and payload says anything.
pub open spec fn is_readable(id: u16, payload: Seq<u8>) -> bool {
    ||| id == ID_CHUNK && payload.len() == CHUNK_PAYLOAD_SIZE
    ||| id == ID_PLAYER_POSITION && payload.len() == ServerPackagePlayerPosition::SIZE
    ||| id == ID_PLAYER_LOGIN && ServerPlayerLogin::parses(payload)
    ||| id == ID_BLOCK_UPDATE && payload.len() == PackageBlockUpdate::SIZE
    ||| id == ID_LOGOUT && payload.len() == ServerPackageLogout::SIZE
}

/// What the client has to read behind the id `id`.
pub fn expect_package(id: u16) -> (r: FrameShape)
    ensures
        r == package_shape(id),
{
    if id == ID_CHUNK {
        FrameShape::Fixed(4108)
    } else if id == ID_BLOCK_UPDATE {
        FrameShape::Fixed(16)
    } else if id == ID_PLAYER_POSITION {
        FrameShape::Fixed(40)
    } else if id == ID_LOGOUT {
        FrameShape::Fixed(8)
    } else if id == ID_PLAYER_LOGIN {
        FrameShape::Prefixed(8)
    } else {
        FrameShape::Unknown
    }
}

/// Reads a frame from the server, given its id and its payload; `None` for
/// an id that the server never sends or a payload that does not go with
/// the id.
pub fn read_packages(id: u16, payload: &[u8]) -> (r: Option<Package>)
    ensures
        r is Some <==> is_readable(id, payload@),
        r matches Some(package) ==> is_package(id, payload@, package),
{
    if id == ID_CHUNK {
        match read_chunk_data(payload) {
            Some((pos, cells)) => Some(Package::Chunk(pos, cells)),
            None => None,
        }
    } else if id == ID_BLOCK_UPDATE {
        match PackageBlockUpdate::new(payload) {
            Some(p) => Some(Package::BlockUpdate(p)),
            None => None,
        }
    } else if id == ID_PLAYER_POSITION {
        match ServerPackagePlayerPosition::new(payload) {
            Some(p) => Some(Package::PlayerPositionUpdate(p)),
            None => None,
        }
    } else if id == ID_LOGOUT {
        match ServerPackageLogout::new(payload) {
            Some(p) => Some(Package::PlayerLogout(p)),
            None => None,
        }
    } else if id == ID_PLAYER_LOGIN {
        match ServerPlayerLogin::new(payload) {
            Some(p) => Some(Package::PlayerLogin(p)),
            None => None,
        }
    } else {
        None
    }
}

/// Number of chunks that the client keeps in one column.
pub const COLUMN_HEIGHT: usize = 8;

/// Number of columns that the client keeps around the camera.
pub const COLUMNS_IN_VIEW: usize = 289;

/// The column of chunks above the block column `(x, z)`.
pub open spec fn center_of(block: [i32; 2]) -> [i32; 2] {
    [chunk_of(block[0] as int) as i32, chunk_of(block[1] as int) as i32]
}

/// Whether the chunk at `pos` is further from the column `center` than the
/// client keeps chunks.
pub open spec fn too_far(pos: ChunkIndex, center: [i32; 2]) -> bool {
    ||| pos[0] - center[0] > VIEW_DISTANCE
    ||| center[0] - pos[0] > VIEW_DISTANCE
    ||| pos[2] - center[1] > VIEW_DISTANCE
    ||| center[1] - pos[2] > VIEW_DISTANCE
}

/// The `i`-th chunk around the column `center`, counting through x, then
/// z, then y, each from its lowest value: x and z reach `VIEW_DISTANCE` to
/// either side of the centre, y from `-Y_RANGE` up to `Y_RANGE - 1`.
pub open spec fn chunk_in_view(center: [i32; 2], i: int) -> ChunkIndex {
    [
        (center[0] + i / 136 - VIEW_DISTANCE) as i32,
        (i % 8 - Y_RANGE) as i32,
        (center[1] + i / 8 % 17 - VIEW_DISTANCE) as i32,
    ]
}

/// All chunks that the client keeps around the column `center`.
pub open spec fn chunks_in_view(center: [i32; 2]) -> Seq<ChunkIndex> {
    Seq::new((COLUMNS_IN_VIEW * COLUMN_HEIGHT) as nat, |i: int| chunk_in_view(center, i))
}

/// Whether the column of the chunk at `pos` has to be asked for: the client
/// goes by the chunk at height 0.
pub open spec fn column_missing(chunks: Map<ChunkIndex, Seq<u8>>, pos: ChunkIndex) -> bool {
    !chunks.contains_key([pos[0], 0i32, pos[2]])
}

/// What the client does when the camera has come over another column.
#[derive(Debug)]
pub struct ViewChange {
    /// The column that the camera is over now.
    pub center: [i32; 2],
    /// The chunks that were too far away and have been forgotten, each
    /// once.
    pub unload: Vec<ChunkIndex>,
    /// The frames that ask for the chunks of every column in view that is
    /// not loaded.
    pub requests: Vec<Box<[u8]>>,
    /// The positions that `requests` ask for, in the same order.
    pub requested: Vec<ChunkIndex>,
}

/// Whether the chunk at `pos` is too far from the column `center`.
pub fn is_too_far(pos: &ChunkIndex, center: &[i32; 2]) -> (r: bool)
    ensures
        r == too_far(*pos, *center),
{
    let dx: i64 = pos[0] as i64 - center[0] as i64;
    let dz: i64 = pos[2] as i64 - center[1] as i64;
    dx > 8 || dx < -8 || dz > 8 || dz < -8
}

/// The loaded chunks that are too far from the column `center`.
pub fn chunks_to_unload(loaded: &[ChunkIndex], center: &[i32; 2]) -> (r: Vec<ChunkIndex>)
    ensures
        r@ == loaded@.filter(|pos: ChunkIndex| too_far(pos, *center)),
{
    let ghost far = |pos: ChunkIndex| too_far(pos, *center);
    let mut out: Vec<ChunkIndex> = Vec::new();
    let mut i: usize = 0;
    proof {
        reveal(Seq::filter);
        assert(loaded@.take(0) =~= Seq::empty());
    }
    while i < loaded.len()
        invariant
            i <= loaded@.len(),
            far == |pos: ChunkIndex| too_far(pos, *center),
            out@ == loaded@.take(i as int).filter(far),
        decreases loaded@.len() - i,
    {
        proof {
            reveal(Seq::filter);
            assert(loaded@.take(i + 1).drop_last() =~= loaded@.take(i as int));
            assert(loaded@.take(i + 1).last() == loaded@[i as int]);
        }
        if is_too_far(&loaded[i], center) {
            out.push(loaded[i]);
        }
        i = i + 1;
    }
    assert(loaded@.take(loaded@.len() as int) =~= loaded@);
    out
}

/// The chunks to ask for around the column `center`: the chunks of every
/// column in view whose chunk at height 0 is not loaded in `world`.
pub fn chunks_to_request(world: &World, center: &[i32; 2]) -> (r: Vec<ChunkIndex>)
    requires
        i32::MIN + VIEW_DISTANCE <= center[0] <= i32::MAX - VIEW_DISTANCE,
        i32::MIN + VIEW_DISTANCE <= center[1] <= i32::MAX - VIEW_DISTANCE,
    ensures
        r@ == chunks_in_view(*center).filter(
            |pos: ChunkIndex| column_missing(world.chunks(), pos),
        ),
{
    let ghost all = chunks_in_view(*center);
    let ghost missing = |pos: ChunkIndex| column_missing(world.chunks(), pos);
    let mut out: Vec<ChunkIndex> = Vec::new();
    let mut column: usize = 0;
    proof {
        reveal(Seq::filter);
        assert(all.take(0) =~= Seq::empty());
    }
    while column < 289
        invariant
            column <= 289,
            i32::MIN + VIEW_DISTANCE <= center[0] <= i32::MAX - VIEW_DISTANCE,
            i32::MIN + VIEW_DISTANCE <= center[1] <= i32::MAX - VIEW_DISTANCE,
            all == chunks_in_view(*center),
            missing == |pos: ChunkIndex| column_missing(world.chunks(), pos),
            out@ == all.take(column * 8).filter(missing),
        decreases 289 - column,
    {
        let x: i32 = center[0] + ((column / 17) as i32 - 8);
        let z: i32 = center[1] + ((column % 17) as i32 - 8);
        let wanted = !world.is_loaded(&[x, 0, z]);
        let mut level: usize = 0;
        while level < 8
            invariant
                level <= 8,
                column < 289,
                x == center[0] + column / 17 - 8,
                z == center[1] + column % 17 - 8,
                all == chunks_in_view(*center),
                missing == |pos: ChunkIndex| column_missing(world.chunks(), pos),
                wanted == !world.chunks().contains_key([x, 0i32, z]),
                out@ == all.take(column * 8 + level).filter(missing),
            decreases 8 - level,
        {
            let ghost i = column * 8 + level;
            let pos: ChunkIndex = [x, level as i32 - 4, z];
            proof {
                reveal(Seq::filter);
                assert(all.take(i + 1).drop_last() =~= all.take(i as int));
                assert(all.take(i + 1).last() == all[i as int]);
                assert(i / 136 == column / 17 && i / 8 % 17 == column % 17 && i % 8 == level);
                assert(all[i as int] =~= pos);
            }
            if wanted {
                out.push(pos);
            }
            level = level + 1;
        }
        column = column + 1;
    }
    assert(all.take(all.len() as int) =~= all);
    out
}

proof fn lemma_filter_keeps_distinct(s: Seq<ChunkIndex>, keep: spec_fn(ChunkIndex) -> bool)
    requires
        s.no_duplicates(),
    ensures
        s.filter(keep).no_duplicates(),
    decreases s.len(),
{
    reveal(Seq::filter);
    if s.len() > 0 {
        let front = s.drop_last();
        let kept = front.filter(keep);
        lemma_filter_keeps_distinct(front, keep);
        if keep(s.last()) {
            if kept.contains(s.last()) {
                front.lemma_filter_contains_rev(keep, s.last());
                let j = choose|j: int| 0 <= j < front.len() && front[j] == s.last();
                assert(s[j] == s[s.len() - 1]);
            }
            assert forall|a: int, b: int|
                0 <= a < kept.len() + 1 && 0 <= b < kept.len() + 1 && a != b implies kept.push(
                s.last(),
            )[a] != kept.push(s.last())[b] by {
                if a == kept.len() {
                    assert(kept.contains(kept[b]));
                }
                if b == kept.len() {
                    assert(kept.contains(kept[a]));
                }
            }
        }
    }
}

/// The loaded chunks that are not too far from the column `center`.
pub open spec fn in_view(chunks: Map<ChunkIndex, Seq<u8>>, center: [i32; 2]) -> Map<
    ChunkIndex,
    Seq<u8>,
> {
    Map::new(
        |at: ChunkIndex| chunks.contains_key(at) && !too_far(at, center),
        |at: ChunkIndex| chunks[at],
    )
}

/// Whether `frames` ask for the chunks at `positions`, one after the other.
pub open spec fn are_requests(frames: Seq<Box<[u8]>>, positions: Seq<ChunkIndex>) -> bool {
    &&& frames.len() == positions.len()
    &&& forall|k: int|
        0 <= k < frames.len() ==> (#[trigger] frames[k])@ == frame(ID_CHUNK, pos_le(positions[k]))
}

/// Whether `after` is the world `before` with what `package` says taken in.
pub open spec fn received(before: World, package: Package, after: World) -> bool {
    match package {
        Package::Chunk(pos, cells) => after.known() == before.known() && after.chunks()
            == with_chunk(before.chunks(), pos, cells@),
        Package::PlayerPositionUpdate(p) => {
            &&& after.chunks() == before.chunks()
            &&& after.known().local() == before.known().local().told(p)
            &&& after.known().others().len() == before.known().others().len()
            &&& forall|i: int|
                0 <= i < before.known().others().len() ==> (#[trigger] after.known().others()[i])
                    == before.known().others()[i].told(p)
        },
        Package::PlayerLogin(p) => {
            &&& after.chunks() == before.chunks()
            &&& after.known().local() == before.known().local()
            &&& after.known().others() == before.known().others().push(
                Player::arrived(p.name, p.uid),
            )
        },
        Package::PlayerLogout(p) => {
            &&& after.chunks() == before.chunks()
            &&& after.known().local() == before.known().local()
            &&& after.known().others() == before.known().others().filter(
                |other: Player| other.uid != p.uid,
            )
        },
        Package::BlockUpdate(p) => after.known() == before.known() && after.chunks() == with_block(
            before.chunks(),
            p.pos,
            p.block,
        ),
    }
}

/// What the network half of a client remembers between events: the column
/// that the chunks around the camera were last asked for, and who the
/// player is.
#[derive(Debug, Clone, Copy, PartialEq, Eq)]
pub struct WorldManager {
    pub current_world_center: [i32; 2],
    pub uid: u64,
}

/// The column that no camera is ever over: it makes the next position of
/// the camera count as a move.
pub open spec fn nowhere() -> [i32; 2] {
    [i32::MIN, i32::MIN]
}

impl WorldManager {
    /// The state with which the network half of the player `uid` starts.
    pub fn new(uid: u64) -> (r: Self)
        ensures
            r.uid == uid,
            r.current_world_center == nowhere(),
    {
        WorldManager { current_world_center: [i32::MIN, i32::MIN], uid }
    }

    /// Takes in a frame from the server. Chunks and block updates go into
    /// the chunks of the world, logins, logouts and positions into its
    /// players. When the server says where the player itself stands, the
    /// chunks around the camera are asked for anew at its next position.
    pub fn package_received(&mut self, world: &mut World, package: Package)
        requires
            old(world).wf(),
        ensures
            final(world).wf(),
            final(self).uid == old(self).uid,
            final(self).current_world_center == if (package matches Package::PlayerPositionUpdate(
                p,
            ) && p.uid == old(self).uid) {
                nowhere()
            } else {
                old(self).current_world_center
            },
            received(*old(world), package, *final(world)),
    {
        match package {
            Package::Chunk(pos, cells) => {
                world.load(pos, cells);
            },
            Package::PlayerPositionUpdate(p) => {
                world.players_mut().update(&p);
                if p.uid == self.uid {
                    self.current_world_center = [i32::MIN, i32::MIN];
                }
            },
            Package::PlayerLogin(p) => {
                world.players_mut().add_player(p.name, p.uid);
            },
            Package::PlayerLogout(p) => {
                world.players_mut().remove_player(p.uid);
            },
            Package::BlockUpdate(p) => {
                world.update_block(p.pos, p.block);
            },
        }
    }

    /// The frame that tells the server where the camera is.
    pub fn position_package(pos: [u64; 3], pitch: u32, yaw: u32) -> (r: Box<[u8]>)
        ensures
            r@ == frame(
                ID_PLAYER_POSITION,
                ClientPackagePlayerPosition { pos, pitch, yaw }.payload(),
            ),
    {
        ClientPackagePlayerPosition { pos, pitch, yaw }.to_box()
    }

    /// The frame that asks the server to put `block` at `pos`.
    pub fn block_package(pos: [i32; 3], block: u8) -> (r: Box<[u8]>)
        ensures
            r@ == frame(
                ID_BLOCK_UPDATE,
                PackageBlockUpdate { pos, block, reserved: [0u8, 0u8, 0u8] }.payload(),
            ),
    {
        PackageBlockUpdate { pos, block, reserved: [0, 0, 0] }.to_box()
    }

    /// Does what the main loop says. A position of the camera is passed on
    /// to the server; where the camera has come over another column of
    /// chunks, the chunks that are too far away now are forgotten and those
    /// of every column in view that is not loaded are asked for. A block
    /// that the player has put somewhere goes into the world and to the
    /// server. The frames for the server come back in the order in which
    /// they are to be sent.
    pub fn update_received(&mut self, world: &mut World, update: Update) -> (r: Vec<Box<[u8]>>)
        requires
            old(world).wf(),
        ensures
            final(world).wf(),
            final(self).uid == old(self).uid,
            final(world).known() == old(world).known(),
            match update {
                Update::Pos(pos, pitch, yaw, camera) => {
                    &&& final(self).current_world_center == center_of(camera)
                    &&& r@.len() >= 1
                    &&& r@[0]@ == frame(
                        ID_PLAYER_POSITION,
                        ClientPackagePlayerPosition { pos, pitch, yaw }.payload(),
                    )
                    &&& if old(self).current_world_center == center_of(camera) {
                        r@.len() == 1 && final(world).chunks() == old(world).chunks()
                    } else {
                        &&& final(world).chunks() == in_view(
                            old(world).chunks(),
                            center_of(camera),
                        )
                        &&& are_requests(
                            r@.skip(1),
                            chunks_in_view(center_of(camera)).filter(
                                |at: ChunkIndex| column_missing(old(world).chunks(), at),
                            ),
                        )
                    }
                },
                Update::Block(pos, block) => {
                    &&& final(self).current_world_center == old(self).current_world_center
                    &&& final(world).chunks() == with_block(old(world).chunks(), pos, block)
                    &&& r@.len() == 1
                    &&& r@[0]@ == frame(
                        ID_BLOCK_UPDATE,
                        PackageBlockUpdate { pos, block, reserved: [0u8, 0u8, 0u8] }.payload(),
                    )
                },
                Update::Exit => {
                    &&& final(self).current_world_center == old(self).current_world_center
                    &&& final(world).chunks() == old(world).chunks()
                    &&& r@.len() == 0
                },
            },
    {
        let mut out: Vec<Box<[u8]>> = Vec::new();
        match update {
            Update::Pos(pos, pitch, yaw, camera) => {
                out.push(Self::position_package(pos, pitch, yaw));
                match self.camera_moved(world, camera) {
                    None => {},
                    Some(change) => {
                        let ghost asked = change.requests@;
                        let mut requests = change.requests;
                        out.append(&mut requests);
                        assert(out@.skip(1) =~= asked);
                    },
                }
            },
            Update::Block(pos, block) => {
                world.update_block(pos, block);
                out.push(Self::block_package(pos, block));
            },
            Update::Exit => {},
        }
        out
    }

    /// The camera is over the block column `camera`. Where that is still
    /// the column of chunks that was last asked for, nothing is done.
    /// Otherwise the loaded chunks that are too far away now are forgotten,
    /// and the chunks of every column in view that is not loaded are to be
    /// asked for.
    pub fn camera_moved(&mut self, world: &mut World, camera: [i32; 2]) -> (r: Option<ViewChange>)
        requires
            old(world).wf(),
        ensures
            final(world).wf(),
            final(world).known() == old(world).known(),
            final(self).uid == old(self).uid,
            final(self).current_world_center == center_of(camera),
            r is None <==> old(self).current_world_center == center_of(camera),
            r is None ==> final(world).chunks() == old(world).chunks(),
            r matches Some(change) ==> {
                &&& change.center == center_of(camera)
                &&& final(world).chunks() == in_view(old(world).chunks(), center_of(camera))
                &&& change.unload@.no_duplicates()
                &&& forall|at: ChunkIndex|
                    change.unload@.contains(at) <==> old(world).chunks().contains_key(at)
                        && too_far(at, center_of(camera))
                &&& change.requested@ == chunks_in_view(center_of(camera)).filter(
                    |pos: ChunkIndex| column_missing(old(world).chunks(), pos),
                )
                &&& are_requests(change.requests@, change.requested@)
            },
    {
        let center: [i32; 2] = [split_coordinate(camera[0]).0, split_coordinate(camera[1]).0];
        assert(center =~= center_of(camera));
        if center[0] == self.current_world_center[0] && center[1] == self.current_world_center[1] {
            assert(center =~= self.current_world_center);
            return None;
        }
        assert(center != self.current_world_center);
        let ghost before = world.chunks();
        let ghost far = |at: ChunkIndex| too_far(at, center);
        let requested = chunks_to_request(world, &center);
        let loaded = world.loaded();
        let unload = chunks_to_unload(loaded.as_slice(), &center);
        proof {
            assert(far =~= (|pos: ChunkIndex| too_far(pos, center)));
            assert(unload@ == loaded@.filter(far));
            assert forall|at: ChunkIndex| unload@.contains(at) <==> (before.contains_key(at)
                && too_far(at, center)) by {
                if unload@.contains(at) {
                    loaded@.lemma_filter_contains_rev(far, at);
                    let j = choose|j: int| 0 <= j < unload@.len() && unload@[j] == at;
                    loaded@.lemma_filter_pred(far, j);
                }
                if before.contains_key(at) && too_far(at, center) {
                    assert(loaded@.contains(at));
                    let j = choose|j: int| 0 <= j < loaded@.len() && loaded@[j] == at;
                    loaded@.lemma_filter_contains(far, j);
                }
            }
            lemma_filter_keeps_distinct(loaded@, far);
        }
        let mut i: usize = 0;
        while i < unload.len()
            invariant
                i <= unload@.len(),
                world.wf(),
                world.known() == old(world).known(),
                world.chunks() == Map::new(
                    |at: ChunkIndex|
                        before.contains_key(at) && !unload@.take(i as int).contains(at),
                    |at: ChunkIndex| before[at],
                ),
            decreases unload@.len() - i,
        {
            let ghost done = unload@.take(i as int);
            let ghost next = unload@.take(i + 1);
            world.unload(&unload[i]);
            proof {
                assert(next =~= done.push(unload@[i as int]));
                assert forall|at: ChunkIndex|
                    next.contains(at) <==> (done.contains(at) || at == unload@[i as int]) by {
                    if done.contains(at) {
                        let j = choose|j: int| 0 <= j < done.len() && done[j] == at;
                        assert(next[j] == at);
                    }
                    if at == unload@[i as int] {
                        assert(next[i as int] == at);
                    }
                    if next.contains(at) {
                        let j = choose|j: int| 0 <= j < next.len() && next[j] == at;
                        if j < i {
                            assert(done[j] == at);
                        }
                    }
                }
                assert(world.chunks() =~= Map::new(
                    |at: ChunkIndex| before.contains_key(at) && !next.contains(at),
                    |at: ChunkIndex| before[at],
                ));
            }
            i = i + 1;
        }
        proof {
            assert(unload@.take(unload@.len() as int) =~= unload@);
            assert(world.chunks() =~= in_view(before, center));
        }
        let mut requests: Vec<Box<[u8]>> = Vec::with_capacity(requested.len());
        let mut k: usize = 0;
        while k < requested.len()
            invariant
                k <= requested@.len(),
                requests@.len() == k,
                forall|j: int|
                    0 <= j < k ==> (#[trigger] requests@[j])@ == frame(
                        ID_CHUNK,
                        pos_le(requested@[j]),
                    ),
            decreases requested@.len() - k,
        {
            requests.push(request_chunk_package(requested[k]));
            k = k + 1;
        }
        self.current_world_center = center;
        Some(ViewChange { center, unload, requests, requested })
    }
}

} // verus!

//! The server: the world it owns, who is playing in it, and what each
//! command does to both.

use std::sync::Arc;
use vstd::prelude::*;

pub mod player;
pub mod session;
pub mod stdin;
pub mod world;

use crate::net::framing::{
    frame, ID_CHUNK, ID_LOGIN_SUCCESS, ID_LOGOUT, ID_PLAYER_LOGIN, ID_PLAYER_POSITION,
};
use crate::net::messages::login_success_package;
use crate::net::names::{all_alphanumeric, is_alphanumeric_name};
use crate::net::packages::{ServerPackageLogout, ServerPackagePlayerPosition, ServerPlayerLogin};
use crate::net::wire::{pos_le, u64_le};
use player::{Players, Roster};
use world::{
    echo_package, generated, load_records, update_echo, updated_chunks, ServerWorld, CHUNK_COLUMNS,
};

verus! {

/// Identifier of a registered player: its index in the registry.
pub type UID = usize;

/// The uid under which commands arrive that no player sent.
pub const NOUSER: UID = usize::MAX;

/// How hard the writer of a queue has to try.
#[derive(Debug, Clone, Copy, PartialEq, Eq)]
pub enum DeliveryClass {
    /// May be dropped where a queue is full: a later frame makes up for it.
    Lossy,
    /// Has to reach the queue: nothing that follows makes up for it.
    Reliable,
}

/// One frame and the players on whose queues it goes, in ascending order of
/// their uids.
#[derive(Debug)]
pub struct Delivery {
    pub package: Arc<[u8]>,
    pub recipients: Vec<UID>,
    pub class: DeliveryClass,
}

/// What a block update asks for.
#[derive(Debug, Clone, Copy, PartialEq, Eq)]
pub enum BlockUpdateMode {
    Destroy,
    Place,
}

impl BlockUpdateMode {
    /// Putting air somewhere destroys what is there; anything else places.
    pub fn of(block: u8) -> (r: Self)
        ensures
            r == if block == 0 {
                BlockUpdateMode::Destroy
            } else {
                BlockUpdateMode::Place
            },
    {
        if block == 0 {
            BlockUpdateMode::Destroy
        } else {
            BlockUpdateMode::Place
        }
    }
}

/// What can be asked of the world. Each command arrives together with the
/// uid of the player who sent it.
#[derive(Debug, PartialEq, Eq)]
pub enum Command {
    /// Send me the chunk at this position.
    ChunkData([i32; 3]),
    /// Let me in under this name.
    Login(String),
    /// I am gone.
    Logout,
    /// Put this block at this position.
    BlockUpdate([i32; 3], u8),
    /// I stand here and look there: position, pitch, yaw.
    PlayerPosition([u64; 3], u32, u32),
    /// Write everything down and stop.
    Shutdown,
}

/// What the caller has to do after a command.
#[derive(Debug)]
pub enum Outcome {
    /// Put these frames on the queues.
    Done(Vec<Delivery>),
    /// Answer the login with this uid, or refuse it, and put these frames
    /// on the queues.
    LoginAnswered(Option<UID>, Vec<Delivery>),
    /// Sample the terrain of this chunk and hand it to `chunk_generated`.
    TerrainNeeded([i32; 3]),
    /// Write players and chunks down and stop.
    ShutdownRequested,
}

/// The list that holds `uid` and nothing else.
fn only(uid: UID) -> (r: Vec<UID>)
    ensures
        r@ == seq![uid],
{
    let mut r: Vec<UID> = Vec::with_capacity(1);
    r.push(uid);
    assert(r@ =~= seq![uid]);
    r
}

/// Whether `d` carries `package` to `to` alone.
pub open spec fn is_single(d: Delivery, package: Seq<u8>, to: UID, class: DeliveryClass) -> bool {
    d.package@ == package && d.recipients@ == seq![to] && d.class == class
}

/// The frame that tells where the player `uid` stands and looks.
pub open spec fn position_frame(uid: UID, of: player::Player) -> Seq<u8> {
    frame(
        ID_PLAYER_POSITION,
        ServerPackagePlayerPosition {
            uid: uid as u64,
            pos: of.pos,
            pitch: of.pitch,
            yaw: of.yaw,
        }.payload(),
    )
}

/// The frame that tells that the player `uid` stands and looks as given.
pub open spec fn moved_frame(uid: UID, pos: [u64; 3], pitch: u32, yaw: u32) -> Seq<u8> {
    frame(
        ID_PLAYER_POSITION,
        ServerPackagePlayerPosition { uid: uid as u64, pos, pitch, yaw }.payload(),
    )
}

/// The frame that announces the player `uid`.
pub open spec fn player_login_frame(uid: UID, of: player::Player) -> Seq<u8> {
    frame(ID_PLAYER_LOGIN, ServerPlayerLogin { uid: uid as u64, name: of.name }.payload())
}

/// Whether `out` is what a login under `uid` sends: to the new player its
/// uid, its own position and one announcement for each of the others, in
/// ascending order of their uids; then to all the others the announcement
/// of the new player.
pub open spec fn is_welcome(roster: Roster, uid: UID, out: Seq<Delivery>) -> bool {
    &&& out.len() >= 3
    &&& is_single(
        out[0],
        frame(ID_LOGIN_SUCCESS, u64_le(uid as u64)),
        uid,
        DeliveryClass::Reliable,
    )
    &&& is_single(out[1], position_frame(uid, roster.live(uid)), uid, DeliveryClass::Reliable)
    &&& out.len() == out.last().recipients@.len() + 3
    &&& roster.is_audience(uid, out.last().recipients@)
    &&& out.last().package@ == player_login_frame(uid, roster.live(uid))
    &&& out.last().class == DeliveryClass::Reliable
    &&& forall|k: int|
        0 <= k < out.last().recipients@.len() ==> is_single(
            #[trigger] out[k + 2],
            player_login_frame(
                out.last().recipients@[k],
                roster.live(out.last().recipients@[k]),
            ),
            uid,
            DeliveryClass::Reliable,
        )
}

/// Whether `out` is one frame for everybody online except `except`, or
/// nothing at all where `package` is `None`.
pub open spec fn is_broadcast(
    roster: Roster,
    except: UID,
    package: Option<Seq<u8>>,
    class: DeliveryClass,
    out: Seq<Delivery>,
) -> bool {
    match package {
        Some(bytes) => out.len() == 1 && out[0].package@ == bytes && out[0].class == class
            && roster.is_audience(except, out[0].recipients@),
        None => out.len() == 0,
    }
}

/// The state of the server: the world and the players.
pub struct Server {
    pub world: ServerWorld,
    pub players: Players,
}

impl Server {
    pub open spec fn wf(&self) -> bool {
        self.world.wf() && self.players@.wf()
    }

    /// A server over the given world and players.
    pub fn new(world: ServerWorld, players: Players) -> (r: Self)
        ensures
            r.world == world,
            r.players == players,
    {
        Server { world, players }
    }

    /// Decides a login under `name`, given whether the name is
    /// alphanumeric. A name that is not, that does not fit a frame or that
    /// is online already is refused, and nothing changes. Otherwise the
    /// player is online, learns its uid, its position and who else is
    /// online, and everybody else learns of the player. The server stays
    /// well-formed as long as no name is said to be alphanumeric that is
    /// not.
    pub fn decide_login(&mut self, name: String, alphanumeric: bool) -> (r: (
        Option<UID>,
        Vec<Delivery>,
    ))
        requires
            old(self).wf(),
        ensures
            final(self).players@.sound(),
            (alphanumeric ==> all_alphanumeric(name@)) ==> final(self).wf(),
            final(self).world == old(self).world,
            r.0 == if alphanumeric {
                old(self).players@.free_uid(name@)
            } else {
                None
            },
            final(self).players@ == if alphanumeric {
                old(self).players@.entered(name)
            } else {
                old(self).players@
            },
            match r.0 {
                Some(uid) => is_welcome(final(self).players@, uid, r.1@),
                None => r.1@.len() == 0,
            },
    {
        let uid = match self.players.decide_login(name, alphanumeric) {
            Some(uid) => uid,
            None => {
                return (None, Vec::new());
            },
        };
        let ghost roster = self.players@;
        let mut out: Vec<Delivery> = Vec::new();
        out.push(
            Delivery {
                package: login_success_package(uid as u64),
                recipients: only(uid),
                class: DeliveryClass::Reliable,
            },
        );
        let me = self.players.player(uid).unwrap();
        let position = ServerPackagePlayerPosition {
            uid: uid as u64,
            pos: me.pos,
            pitch: me.pitch,
            yaw: me.yaw,
        };
        out.push(
            Delivery {
                package: position.to_arc(),
                recipients: only(uid),
                class: DeliveryClass::Reliable,
            },
        );
        let others = self.players.audience(uid);
        let mut k: usize = 0;
        while k < others.len()
            invariant
                k <= others@.len(),
                roster == self.players@,
                roster.sound(),
                roster.is_audience(uid, others@),
                out@.len() == k + 2,
                is_single(
                    out@[0],
                    frame(ID_LOGIN_SUCCESS, u64_le(uid as u64)),
                    uid,
                    DeliveryClass::Reliable,
                ),
                is_single(
                    out@[1],
                    position_frame(uid, roster.live(uid)),
                    uid,
                    DeliveryClass::Reliable,
                ),
                forall|j: int|
                    0 <= j < k ==> is_single(
                        #[trigger] out@[j + 2],
                        player_login_frame(others@[j], roster.live(others@[j])),
                        uid,
                        DeliveryClass::Reliable,
                    ),
            decreases others@.len() - k,
        {
            let other = others[k];
            assert(others@.contains(other));
            let name = self.players.player(other).unwrap().name.clone();
            let announce = ServerPlayerLogin { uid: other as u64, name };
            let ghost before = out@;
            out.push(
                Delivery {
                    package: announce.to_arc(),
                    recipients: only(uid),
                    class: DeliveryClass::Reliable,
                },
            );
            assert forall|j: int| 0 <= j < k + 1 implies is_single(
                #[trigger] out@[j + 2],
                player_login_frame(others@[j], roster.live(others@[j])),
                uid,
                DeliveryClass::Reliable,
            ) by {
                if j < k {
                    assert(out@[j + 2] == before[j + 2]);
                }
            }
            k = k + 1;
        }
        let announce = ServerPlayerLogin { uid: uid as u64, name: me.name.clone() };
        let ghost before = out@;
        out.push(
            Delivery {
                package: announce.to_arc(),
                recipients: others,
                class: DeliveryClass::Reliable,
            },
        );
        proof {
            assert(out@.last() == out@[out@.len() - 1]);
            assert forall|j: int| 0 <= j < others@.len() implies is_single(
                #[trigger] out@[j + 2],
                player_login_frame(others@[j], roster.live(others@[j])),
                uid,
                DeliveryClass::Reliable,
            ) by {
                assert(out@[j + 2] == before[j + 2]);
            }
        }
        (Some(uid), out)
    }

    /// Decides a login under `name`: as `decide_login`, which is told
    /// whether the name is alphanumeric.
    pub fn login(&mut self, name: String) -> (r: (Option<UID>, Vec<Delivery>))
        requires
            old(self).wf(),
        ensures
            final(self).wf(),
            final(self).world == old(self).world,
            r.0 == old(self).players@.login_uid(name@),
            final(self).players@ == old(self).players@.login(name),
            match r.0 {
                Some(uid) => is_welcome(final(self).players@, uid, r.1@),
                None => r.1@.len() == 0,
            },
    {
        let alphanumeric = is_alphanumeric_name(name.as_str());
        self.decide_login(name, alphanumeric)
    }

    /// The player `uid` is gone: its live record is kept, and everybody
    /// else is told. Nothing happens if `uid` is not online.
    pub fn logout(&mut self, uid: UID) -> (out: Vec<Delivery>)
        requires
            old(self).wf(),
        ensures
            final(self).wf(),
            final(self).world == old(self).world,
            final(self).players@ == old(self).players@.logout(uid),
            is_broadcast(
                final(self).players@,
                uid,
                if old(self).players@.is_online(uid) {
                    Some(frame(ID_LOGOUT, ServerPackageLogout { uid: uid as u64 }.payload()))
                } else {
                    None
                },
                DeliveryClass::Reliable,
                out@,
            ),
    {
        let mut out: Vec<Delivery> = Vec::new();
        if self.players.is_online(uid) {
            self.players.logout(uid);
            let package = ServerPackageLogout { uid: uid as u64 }.to_arc();
            out.push(self.players.broadcast_filtered(package, DeliveryClass::Reliable, uid));
        } else {
            self.players.logout(uid);
        }
        out
    }

    /// The player `uid` asks for the chunk at `pos`. A loaded chunk is sent
    /// to the player, who may ask again if the frame is lost. For a chunk
    /// that is not loaded the terrain is needed first. A player who is not
    /// online gets nothing.
    pub fn chunk_data(&self, uid: UID, pos: &[i32; 3]) -> (r: Outcome)
        requires
            self.wf(),
        ensures
            match r {
                Outcome::Done(out) => if self.players@.is_online(uid) {
                    self.world.chunks().contains_key(*pos) && out@.len() == 1 && is_single(
                        out@[0],
                        frame(ID_CHUNK, pos_le(*pos) + self.world.chunks()[*pos]),
                        uid,
                        DeliveryClass::Lossy,
                    )
                } else {
                    out@.len() == 0
                },
                Outcome::TerrainNeeded(at) => self.players@.is_online(uid)
                    && !self.world.chunks().contains_key(*pos) && at == *pos,
                _ => false,
            },
    {
        if !self.players.is_online(uid) {
            return Outcome::Done(Vec::new());
        }
        match self.world.loaded_chunk_data(pos) {
            Some(package) => {
                let mut out: Vec<Delivery> = Vec::new();
                out.push(Delivery { package, recipients: only(uid), class: DeliveryClass::Lossy });
                Outcome::Done(out)
            },
            None => Outcome::TerrainNeeded(*pos),
        }
    }

    /// Answers the request of the player `uid` for the chunk at `pos` once
    /// the terrain is at hand: the chunk is generated over `column_tops`
    /// and kept, unless it has been loaded meanwhile, and sent to the
    /// player if it is still online.
    pub fn chunk_generated(
        &mut self,
        uid: UID,
        pos: &[i32; 3],
        column_tops: &[i32; CHUNK_COLUMNS],
    ) -> (out: Vec<Delivery>)
        requires
            old(self).wf(),
        ensures
            final(self).wf(),
            final(self).players == old(self).players,
            final(self).world.spec_settings() == old(self).world.spec_settings(),
            final(self).world.chunks() == if old(self).world.chunks().contains_key(*pos) {
                old(self).world.chunks()
            } else {
                old(self).world.chunks().insert(*pos, generated(pos[1] as int, column_tops@))
            },
            if old(self).players@.is_online(uid) {
                out@.len() == 1 && is_single(
                    out@[0],
                    frame(ID_CHUNK, pos_le(*pos) + final(self).world.chunks()[*pos]),
                    uid,
                    DeliveryClass::Lossy,
                )
            } else {
                out@.len() == 0
            },
    {
        let package = self.world.get_chunk_data(pos, column_tops);
        let mut out: Vec<Delivery> = Vec::new();
        if self.players.is_online(uid) {
            out.push(Delivery { package, recipients: only(uid), class: DeliveryClass::Lossy });
        }
        out
    }

    /// The player `uid` says where it stands and looks: that is taken
    /// down, and everybody else who is online is told; the player itself
    /// is not. Nothing happens if `uid` is not online.
    pub fn player_position(&mut self, uid: UID, pos: [u64; 3], pitch: u32, yaw: u32) -> (out: Vec<
        Delivery,
    >)
        requires
            old(self).wf(),
        ensures
            final(self).wf(),
            final(self).world == old(self).world,
            final(self).players@ == old(self).players@.moved(uid, pos, pitch, yaw),
            is_broadcast(
                final(self).players@,
                uid,
                if old(self).players@.is_online(uid) {
                    Some(moved_frame(uid, pos, pitch, yaw))
                } else {
                    None
                },
                DeliveryClass::Lossy,
                out@,
            ),
    {
        let mut out: Vec<Delivery> = Vec::new();
        let online = self.players.is_online(uid);
        self.players.set_pose(uid, pos, pitch, yaw);
        if online {
            let package = ServerPackagePlayerPosition { uid: uid as u64, pos, pitch, yaw }.to_arc();
            out.push(self.players.broadcast_filtered(package, DeliveryClass::Lossy, uid));
        }
        out
    }

    /// Somebody asks to put `block` at `pos`. Where the chunk is loaded the
    /// request is decided, and everybody who is online, the sender too, is
    /// told what the cell holds now. Where it is not, nothing happens.
    pub fn block_update(&mut self, pos: &[i32; 3], block: u8) -> (out: Vec<Delivery>)
        requires
            old(self).wf(),
        ensures
            final(self).wf(),
            final(self).players == old(self).players,
            final(self).world.spec_settings() == old(self).world.spec_settings(),
            final(self).world.chunks() == updated_chunks(old(self).world.chunks(), *pos, block),
            is_broadcast(
                final(self).players@,
                NOUSER,
                match update_echo(old(self).world.chunks(), *pos, block) {
                    Some(now) => Some(echo_package(*pos, Some(now))),
                    None => None,
                },
                DeliveryClass::Reliable,
                out@,
            ),
    {
        let package = self.world.process_block_update(pos, block);
        let mut out: Vec<Delivery> = Vec::new();
        proof {
            crate::net::wire::lemma_u16_round_trip(
                crate::net::framing::ID_BLOCK_UPDATE,
                pos_le(*pos) + seq![0u8, 0u8, 0u8, 0u8],
            );
        }
        if package.len() > 0 {
            out.push(self.players.broadcast(package, DeliveryClass::Reliable));
        }
        out
    }

    /// Gets everything ready to be written down: the registered records
    /// take over the live ones, and the chunk file is made, which reads back
    /// as the loaded chunks.
    pub fn flush(&mut self) -> (chunk_file: Vec<u8>)
        requires
            old(self).wf(),
        ensures
            final(self).wf(),
            final(self).world == old(self).world,
            final(self).players@ == old(self).players@.synced(),
            load_records(Map::empty(), chunk_file@) == Some(final(self).world.chunks()),
    {
        self.players.sync_to_disk();
        self.world.sync_to_disk()
    }

    /// Carries out `command`, sent by `uid`, and says what is left for the
    /// caller to do: each command does what the function named after it
    /// does.
    pub fn handle(&mut self, uid: UID, command: Command) -> (r: Outcome)
        requires
            old(self).wf(),
        ensures
            final(self).wf(),
            handled(*old(self), uid, command, *final(self), r),
    {
        match command {
            Command::Login(name) => {
                let (reply, out) = self.login(name);
                Outcome::LoginAnswered(reply, out)
            },
            Command::Logout => Outcome::Done(self.logout(uid)),
            Command::ChunkData(pos) => self.chunk_data(uid, &pos),
            Command::PlayerPosition(pos, pitch, yaw) => Outcome::Done(
                self.player_position(uid, pos, pitch, yaw),
            ),
            Command::BlockUpdate(pos, block) => Outcome::Done(self.block_update(&pos, block)),
            Command::Shutdown => Outcome::ShutdownRequested,
        }
    }
}

/// What `handle` promises of the server before and after `command` from
/// `uid`, and of what is left to do.
pub open spec fn handled(before: Server, uid: UID, command: Command, after: Server, r: Outcome)
    -> bool {
    match command {
        Command::Login(name) => {
            &&& after.world == before.world
            &&& after.players@ == before.players@.login(name)
            &&& r matches Outcome::LoginAnswered(reply, out)
            &&& reply == before.players@.login_uid(name@)
            &&& match reply {
                Some(new_uid) => is_welcome(after.players@, new_uid, out@),
                None => out@.len() == 0,
            }
        },
        Command::Logout => {
            &&& after.world == before.world
            &&& after.players@ == before.players@.logout(uid)
            &&& r matches Outcome::Done(out)
            &&& is_broadcast(
                after.players@,
                uid,
                if before.players@.is_online(uid) {
                    Some(frame(ID_LOGOUT, ServerPackageLogout { uid: uid as u64 }.payload()))
                } else {
                    None
                },
                DeliveryClass::Reliable,
                out@,
            )
        },
        Command::ChunkData(pos) => {
            &&& after == before
            &&& if !before.players@.is_online(uid) {
                r matches Outcome::Done(out) && out@.len() == 0
            } else if before.world.chunks().contains_key(pos) {
                r matches Outcome::Done(out) && out@.len() == 1 && is_single(
                    out@[0],
                    frame(ID_CHUNK, pos_le(pos) + before.world.chunks()[pos]),
                    uid,
                    DeliveryClass::Lossy,
                )
            } else {
                r matches Outcome::TerrainNeeded(at) && at == pos
            }
        },
        Command::PlayerPosition(pos, pitch, yaw) => {
            &&& after.world == before.world
            &&& after.players@ == before.players@.moved(uid, pos, pitch, yaw)
            &&& r matches Outcome::Done(out)
            &&& is_broadcast(
                after.players@,
                uid,
                if before.players@.is_online(uid) {
                    Some(moved_frame(uid, pos, pitch, yaw))
                } else {
                    None
                },
                DeliveryClass::Lossy,
                out@,
            )
        },
        Command::BlockUpdate(pos, block) => {
            &&& after.players == before.players
            &&& after.world.spec_settings() == before.world.spec_settings()
            &&& after.world.chunks() == updated_chunks(before.world.chunks(), pos, block)
            &&& r matches Outcome::Done(out)
            &&& is_broadcast(
                after.players@,
                NOUSER,
                match update_echo(before.world.chunks(), pos, block) {
                    Some(now) => Some(echo_package(pos, Some(now))),
                    None => None,
                },
                DeliveryClass::Reliable,
                out@,
            )
        },
        Command::Shutdown => after == before && r is ShutdownRequested,
    }
}

} // verus!

//! The frames that have a type of their own. Floating-point fields travel
//! as their IEEE-754 bit patterns, which is all that the server ever needs
//! of them.

use std::sync::Arc;
use vstd::prelude::*;
use vstd::utf8::{decode_utf8, encode_utf8, valid_utf8};

use super::framing::{
    begin, boxed, frame, get_pos, is_prefixed, lemma_pos_round_trip, lemma_prefixed_round_trip,
    name_fits, parse_pos, prefixed, prefixed_body, put_bytes, share, take_prefixed, text_from_utf8,
    ID_BLOCK_UPDATE, ID_LOGOUT, ID_PLAYER_LOGIN, ID_PLAYER_POSITION,
};
use super::wire::{
    get_u32, get_u64, lemma_u32_round_trip, lemma_u64_round_trip, pos_le, put_pos, put_u16, put_u32,
    put_u64, u16_from_le, u32_from_le, u32_le, u64_from_le, u64_le,
};

verus! {

/// A block changed, or should change: sent by a client to ask for it and by
/// the server to tell everybody what the cell holds now.
#[derive(Debug, Clone, Copy, PartialEq, Eq)]
pub struct PackageBlockUpdate {
    pub pos: [i32; 3],
    pub block: u8,
    pub reserved: [u8; 3],
}

impl PackageBlockUpdate {
    /// Length of the payload in bytes.
    pub const SIZE: usize = 16;

    /// The payload: position, block id, three reserved bytes.
    pub open spec fn payload(self) -> Seq<u8> {
        pos_le(self.pos) + seq![self.block] + self.reserved@
    }

    /// What a payload of `SIZE` bytes says.
    pub open spec fn parse(s: Seq<u8>) -> Self {
        PackageBlockUpdate {
            pos: parse_pos(s),
            block: s[12],
            reserved: [s[13], s[14], s[15]],
        }
    }

    pub fn id() -> (r: u16)
        ensures
            r == ID_BLOCK_UPDATE,
    {
        ID_BLOCK_UPDATE
    }

    /// Reads the payload of a block update; `None` unless it has `SIZE` bytes.
    pub fn new(payload: &[u8]) -> (r: Option<Self>)
        ensures
            r == if payload@.len() == Self::SIZE {
                Some(Self::parse(payload@))
            } else {
                None
            },
    {
        if payload.len() != 16 {
            return None;
        }
        Some(
            PackageBlockUpdate {
                pos: get_pos(payload),
                block: payload[12],
                reserved: [payload[13], payload[14], payload[15]],
            },
        )
    }

    fn encode(&self) -> (out: Vec<u8>)
        ensures
            out@ == frame(ID_BLOCK_UPDATE, self.payload()),
    {
        let mut out = begin(ID_BLOCK_UPDATE, 18);
        put_pos(&mut out, &self.pos);
        out.push(self.block);
        out.push(self.reserved[0]);
        out.push(self.reserved[1]);
        out.push(self.reserved[2]);
        assert(out@ =~= frame(ID_BLOCK_UPDATE, self.payload()));
        out
    }

    /// The whole frame, ready to be shared between writers.
    pub fn to_arc(&self) -> (r: Arc<[u8]>)
        ensures
            r@ == frame(ID_BLOCK_UPDATE, self.payload()),
    {
        share(self.encode())
    }

    /// The whole frame, owned.
    pub fn to_box(&self) -> (r: Box<[u8]>)
        ensures
            r@ == frame(ID_BLOCK_UPDATE, self.payload()),
    {
        boxed(self.encode())
    }
}

/// A block update survives being written and read back.
pub proof fn lemma_block_update_round_trip(p: PackageBlockUpdate)
    ensures
        p.payload().len() == PackageBlockUpdate::SIZE,
        PackageBlockUpdate::parse(p.payload()) == p,
{
    let s = p.payload();
    lemma_pos_round_trip(p.pos, seq![p.block] + p.reserved@);
    assert(s =~= pos_le(p.pos) + (seq![p.block] + p.reserved@));
    let q = PackageBlockUpdate::parse(s);
    assert(q.pos =~= p.pos);
    assert(q.reserved =~= p.reserved);
}

/// Pose of a player: position, pitch and yaw, each as the bit pattern of its
/// IEEE-754 number (binary64 for the position, binary32 for the angles).
pub open spec fn pose_le(pos: [u64; 3], pitch: u32, yaw: u32) -> Seq<u8> {
    u64_le(pos[0]) + u64_le(pos[1]) + u64_le(pos[2]) + u32_le(pitch) + u32_le(yaw)
}

fn put_pose(out: &mut Vec<u8>, pos: &[u64; 3], pitch: u32, yaw: u32)
    ensures
        final(out)@ == old(out)@ + pose_le(*pos, pitch, yaw),
{
    put_u64(out, pos[0]);
    put_u64(out, pos[1]);
    put_u64(out, pos[2]);
    put_u32(out, pitch);
    put_u32(out, yaw);
    assert(out@ =~= old(out)@ + pose_le(*pos, pitch, yaw));
}

/// Reading back what `pose_le` wrote gives the pose again, whatever follows
/// it.
pub proof fn lemma_pose_round_trip(pos: [u64; 3], pitch: u32, yaw: u32, rest: Seq<u8>)
    ensures
        pose_le(pos, pitch, yaw).len() == 32,
        u64_from_le(pose_le(pos, pitch, yaw) + rest) == pos[0],
        u64_from_le((pose_le(pos, pitch, yaw) + rest).skip(8)) == pos[1],
        u64_from_le((pose_le(pos, pitch, yaw) + rest).skip(16)) == pos[2],
        u32_from_le((pose_le(pos, pitch, yaw) + rest).skip(24)) == pitch,
        u32_from_le((pose_le(pos, pitch, yaw) + rest).skip(28)) == yaw,
{
    let s = pose_le(pos, pitch, yaw) + rest;
    let t4 = u32_le(yaw) + rest;
    let t3 = u32_le(pitch) + t4;
    let t2 = u64_le(pos[2]) + t3;
    let t1 = u64_le(pos[1]) + t2;
    lemma_u64_round_trip(pos[0], t1);
    lemma_u64_round_trip(pos[1], t2);
    lemma_u64_round_trip(pos[2], t3);
    lemma_u32_round_trip(pitch, t4);
    lemma_u32_round_trip(yaw, rest);
    assert(s =~= u64_le(pos[0]) + t1);
    assert(s.skip(8) =~= t1);
    assert(s.skip(16) =~= t2);
    assert(s.skip(24) =~= t3);
    assert(s.skip(28) =~= t4);
}

/// Where a client says it stands and looks.
#[derive(Debug, Clone, Copy, PartialEq, Eq)]
pub struct ClientPackagePlayerPosition {
    pub pos: [u64; 3],
    pub pitch: u32,
    pub yaw: u32,
}

impl ClientPackagePlayerPosition {
    /// Length of the payload in bytes.
    pub const SIZE: usize = 32;

    /// The payload: three coordinates, pitch, yaw.
    pub open spec fn payload(self) -> Seq<u8> {
        pose_le(self.pos, self.pitch, self.yaw)
    }

    /// What a payload of `SIZE` bytes says.
    pub open spec fn parse(s: Seq<u8>) -> Self {
        ClientPackagePlayerPosition {
            pos: [u64_from_le(s), u64_from_le(s.skip(8)), u64_from_le(s.skip(16))],
            pitch: u32_from_le(s.skip(24)),
            yaw: u32_from_le(s.skip(28)),
        }
    }

    pub fn id() -> (r: u16)
        ensures
            r == ID_PLAYER_POSITION,
    {
        ID_PLAYER_POSITION
    }

    /// Reads the payload of a position; `None` unless it has `SIZE` bytes.
    pub fn new(payload: &[u8]) -> (r: Option<Self>)
        ensures
            r == if payload@.len() == Self::SIZE {
                Some(Self::parse(payload@))
            } else {
                None
            },
    {
        if payload.len() != 32 {
            return None;
        }
        assert(payload@.skip(0) =~= payload@);
        Some(
            ClientPackagePlayerPosition {
                pos: [get_u64(payload, 0), get_u64(payload, 8), get_u64(payload, 16)],
                pitch: get_u32(payload, 24),
                yaw: get_u32(payload, 28),
            },
        )
    }

    fn encode(&self) -> (out: Vec<u8>)
        ensures
            out@ == frame(ID_PLAYER_POSITION, self.payload()),
    {
        let mut out = begin(ID_PLAYER_POSITION, 34);
        put_pose(&mut out, &self.pos, self.pitch, self.yaw);
        out
    }

    /// The whole frame, ready to be shared between writers.
    pub fn to_arc(&self) -> (r: Arc<[u8]>)
        ensures
            r@ == frame(ID_PLAYER_POSITION, self.payload()),
    {
        share(self.encode())
    }

    /// The whole frame, owned.
    pub fn to_box(&self) -> (r: Box<[u8]>)
        ensures
            r@ == frame(ID_PLAYER_POSITION, self.payload()),
    {
        boxed(self.encode())
    }
}

/// A client position survives being written and read back.
pub proof fn lemma_client_position_round_trip(p: ClientPackagePlayerPosition)
    ensures
        p.payload().len() == ClientPackagePlayerPosition::SIZE,
        ClientPackagePlayerPosition::parse(p.payload()) == p,
{
    let s = p.payload();
    lemma_pose_round_trip(p.pos, p.pitch, p.yaw, Seq::empty());
    assert(s =~= pose_le(p.pos, p.pitch, p.yaw) + Seq::empty());
    let q = ClientPackagePlayerPosition::parse(s);
    assert(q.pos =~= p.pos);
}

/// Where the server says the player `uid` stands and looks.
#[derive(Debug, Clone, Copy, PartialEq, Eq)]
pub struct ServerPackagePlayerPosition {
    pub uid: u64,
    pub pos: [u64; 3],
    pub pitch: u32,
    pub yaw: u32,
}

impl ServerPackagePlayerPosition {
    /// Length of the payload in bytes.
    pub const SIZE: usize = 40;

    /// The payload: uid, three coordinates, pitch, yaw.
    pub open spec fn payload(self) -> Seq<u8> {
        u64_le(self.uid) + pose_le(self.pos, self.pitch, self.yaw)
    }

    /// What a payload of `SIZE` bytes says.
    pub open spec fn parse(s: Seq<u8>) -> Self {
        ServerPackagePlayerPosition {
            uid: u64_from_le(s),
            pos: [u64_from_le(s.skip(8)), u64_from_le(s.skip(16)), u64_from_le(s.skip(24))],
            pitch: u32_from_le(s.skip(32)),
            yaw: u32_from_le(s.skip(36)),
        }
    }

    pub fn id() -> (r: u16)
        ensures
            r == ID_PLAYER_POSITION,
    {
        ID_PLAYER_POSITION
    }

    /// Reads the payload of a position; `None` unless it has `SIZE` bytes.
    pub fn new(payload: &[u8]) -> (r: Option<Self>)
        ensures
            r == if payload@.len() == Self::SIZE {
                Some(Self::parse(payload@))
            } else {
                None
            },
    {
        if payload.len() != 40 {
            return None;
        }
        assert(payload@.skip(0) =~= payload@);
        Some(
            ServerPackagePlayerPosition {
                uid: get_u64(payload, 0),
                pos: [get_u64(payload, 8), get_u64(payload, 16), get_u64(payload, 24)],
                pitch: get_u32(payload, 32),
                yaw: get_u32(payload, 36),
            },
        )
    }

    fn encode(&self) -> (out: Vec<u8>)
        ensures
            out@ == frame(ID_PLAYER_POSITION, self.payload()),
    {
        let mut out = begin(ID_PLAYER_POSITION, 42);
        put_u64(&mut out, self.uid);
        put_pose(&mut out, &self.pos, self.pitch, self.yaw);
        assert(out@ =~= frame(ID_PLAYER_POSITION, self.payload()));
        out
    }

    /// The whole frame, ready to be shared between writers.
    pub fn to_arc(&self) -> (r: Arc<[u8]>)
        ensures
            r@ == frame(ID_PLAYER_POSITION, self.payload()),
    {
        share(self.encode())
    }

    /// The whole frame, owned.
    pub fn to_box(&self) -> (r: Box<[u8]>)
        ensures
            r@ == frame(ID_PLAYER_POSITION, self.payload()),
    {
        boxed(self.encode())
    }
}

/// A server position survives being written and read back.
pub proof fn lemma_server_position_round_trip(p: ServerPackagePlayerPosition)
    ensures
        p.payload().len() == ServerPackagePlayerPosition::SIZE,
        ServerPackagePlayerPosition::parse(p.payload()) == p,
{
    let s = p.payload();
    let pose = pose_le(p.pos, p.pitch, p.yaw);
    lemma_u64_round_trip(p.uid, pose);
    lemma_pose_round_trip(p.pos, p.pitch, p.yaw, Seq::empty());
    assert(s.skip(8) =~= pose + Seq::empty());
    assert(s.skip(16) =~= (pose + Seq::empty()).skip(8));
    assert(s.skip(24) =~= (pose + Seq::empty()).skip(16));
    assert(s.skip(32) =~= (pose + Seq::empty()).skip(24));
    assert(s.skip(36) =~= (pose + Seq::empty()).skip(28));
    let q = ServerPackagePlayerPosition::parse(s);
    assert(q.pos =~= p.pos);
}

/// The player `uid` is gone.
#[derive(Debug, Clone, Copy, PartialEq, Eq)]
pub struct ServerPackageLogout {
    pub uid: u64,
}

impl ServerPackageLogout {
    /// Length of the payload in bytes.
    pub const SIZE: usize = 8;

    /// The payload: the uid.
    pub open spec fn payload(self) -> Seq<u8> {
        u64_le(self.uid)
    }

    /// What a payload of `SIZE` bytes says.
    pub open spec fn parse(s: Seq<u8>) -> Self {
        ServerPackageLogout { uid: u64_from_le(s) }
    }

    pub fn id() -> (r: u16)
        ensures
            r == ID_LOGOUT,
    {
        ID_LOGOUT
    }

    /// Reads the payload of a logout; `None` unless it has `SIZE` bytes.
    pub fn new(payload: &[u8]) -> (r: Option<Self>)
        ensures
            r == if payload@.len() == Self::SIZE {
                Some(Self::parse(payload@))
            } else {
                None
            },
    {
        if payload.len() != 8 {
            return None;
        }
        assert(payload@.skip(0) =~= payload@);
        Some(ServerPackageLogout { uid: get_u64(payload, 0) })
    }

    fn encode(&self) -> (out: Vec<u8>)
        ensures
            out@ == frame(ID_LOGOUT, self.payload()),
    {
        let mut out = begin(ID_LOGOUT, 10);
        put_u64(&mut out, self.uid);
        out
    }

    /// The whole frame, ready to be shared between writers.
    pub fn to_arc(&self) -> (r: Arc<[u8]>)
        ensures
            r@ == frame(ID_LOGOUT, self.payload()),
    {
        share(self.encode())
    }

    /// The whole frame, owned.
    pub fn to_box(&self) -> (r: Box<[u8]>)
        ensures
            r@ == frame(ID_LOGOUT, self.payload()),
    {
        boxed(self.encode())
    }
}

/// A logout survives being written and read back.
pub proof fn lemma_logout_round_trip(p: ServerPackageLogout)
    ensures
        p.payload().len() == ServerPackageLogout::SIZE,
        ServerPackageLogout::parse(p.payload()) == p,
{
    lemma_u64_round_trip(p.uid, Seq::empty());
    assert(p.payload() =~= u64_le(p.uid) + Seq::empty());
}

/// Another player, `uid`, is online under `name`.
#[derive(Debug, PartialEq, Eq)]
pub struct ServerPlayerLogin {
    pub uid: u64,
    pub name: String,
}

impl Clone for ServerPlayerLogin {
    fn clone(&self) -> (r: Self)
        ensures
            r == *self,
    {
        ServerPlayerLogin { uid: self.uid, name: self.name.clone() }
    }
}

impl ServerPlayerLogin {
    /// Whether the name is short enough for its length to fit the frame.
    pub open spec fn fits(self) -> bool {
        name_fits(self.name@)
    }

    /// The payload: length of the name, the name in UTF-8, the uid.
    pub open spec fn payload(self) -> Seq<u8> {
        prefixed(encode_utf8(self.name@)) + u64_le(self.uid)
    }

    /// Whether `s` is the payload of some player login.
    pub open spec fn parses(s: Seq<u8>) -> bool {
        is_prefixed(s, 8) && valid_utf8(prefixed_body(s))
    }

    pub fn id() -> (r: u16)
        ensures
            r == ID_PLAYER_LOGIN,
    {
        ID_PLAYER_LOGIN
    }

    /// The whole frame, ready to be shared between writers.
    pub fn to_arc(&self) -> (r: Arc<[u8]>)
        requires
            self.fits(),
        ensures
            r@ == frame(ID_PLAYER_LOGIN, self.payload()),
    {
        let name = self.name.as_str().as_bytes();
        let mut out = begin(ID_PLAYER_LOGIN, 12);
        put_u16(&mut out, name.len() as u16);
        put_bytes(&mut out, name);
        put_u64(&mut out, self.uid);
        assert(out@ =~= frame(ID_PLAYER_LOGIN, self.payload()));
        share(out)
    }

    /// Reads the payload of a player login; `None` unless the lengths add up
    /// and the name is well-formed UTF-8.
    pub fn new(payload: &[u8]) -> (r: Option<Self>)
        ensures
            r is Some <==> Self::parses(payload@),
            r matches Some(p) ==> p.name@ == decode_utf8(prefixed_body(payload@)) && p.uid
                == u64_from_le(payload@.skip(2 + u16_from_le(payload@))),
    {
        match take_prefixed(payload, 8) {
            None => None,
            Some((body, end)) => {
                match text_from_utf8(body) {
                    None => None,
                    Some(name) => Some(ServerPlayerLogin { uid: get_u64(payload, end), name }),
                }
            },
        }
    }
}

/// A player login whose name fits survives being written and read back.
pub proof fn lemma_player_login_round_trip(p: ServerPlayerLogin)
    requires
        p.fits(),
    ensures
        ServerPlayerLogin::parses(p.payload()),
        decode_utf8(prefixed_body(p.payload())) == p.name@,
        u64_from_le(p.payload().skip(2 + u16_from_le(p.payload()))) == p.uid,
{
    let name = encode_utf8(p.name@);
    lemma_prefixed_round_trip(name, u64_le(p.uid));
    lemma_u64_round_trip(p.uid, Seq::empty());
    assert(u64_le(p.uid) =~= u64_le(p.uid) + Seq::empty());
    vstd::utf8::encode_utf8_valid_utf8(p.name@);
    vstd::utf8::encode_utf8_decode_utf8(p.name@);
}

} // verus!

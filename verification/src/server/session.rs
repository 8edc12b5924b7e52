//! One connection as the reader sees it: which frames are in order in
//! which state, and what follows from each.

use std::sync::Arc;
use vstd::prelude::*;
use vstd::utf8::{decode_utf8, valid_utf8};

use crate::net::framing::{
    frame, has_shape, is_prefixed, parse_pos, prefixed, prefixed_body, FrameShape, ID_BLOCK_UPDATE,
    ID_CHUNK, ID_LOGIN, ID_PLAYER_POSITION,
};
use crate::net::messages::{login_failed_package, read_login, read_request_chunk};
use crate::net::names::{all_alphanumeric, is_alphanumeric_name};
use crate::net::packages::{ClientPackagePlayerPosition, PackageBlockUpdate};
use super::{Command, UID};

verus! {

/// Where a connection stands.
#[derive(Debug, Clone, Copy, PartialEq, Eq)]
pub enum SessionState {
    /// Nobody has logged in over this connection yet.
    Start,
    /// The player with this uid is playing.
    Play(UID),
    /// The connection is over.
    Terminated,
}

/// What the reader has to do next.
#[derive(Debug)]
pub enum Reaction {
    /// Hand the command to the world under this uid, then read on.
    Forward(UID, Command),
    /// Hand the login to the world, wait for its answer and pass the
    /// answer to `login_answered`.
    AskLogin(Command),
    /// The login went through: read on.
    Proceed,
    /// Put this frame, which refuses the login, on the queue of the
    /// connection and stop reading.
    Refuse(Arc<[u8]>),
    /// Tell the world that the player with this uid is gone and stop
    /// reading.
    Leave(UID),
    /// Stop reading.
    Close,
}

/// What follows the id `id` on a connection that is in `state`.
pub open spec fn shape_of(state: SessionState, id: u16) -> FrameShape {
    match state {
        SessionState::Start => if id == ID_LOGIN {
            FrameShape::Prefixed(0)
        } else {
            FrameShape::Unknown
        },
        SessionState::Play(_) => if id == ID_CHUNK {
            FrameShape::Fixed(12)
        } else if id == ID_BLOCK_UPDATE {
            FrameShape::Fixed(PackageBlockUpdate::SIZE)
        } else if id == ID_PLAYER_POSITION {
            FrameShape::Fixed(ClientPackagePlayerPosition::SIZE)
        } else {
            FrameShape::Unknown
        },
        SessionState::Terminated => FrameShape::Unknown,
    }
}

/// The frame that refuses a login without giving a reason.
pub open spec fn refusal() -> Seq<u8> {
    frame(ID_LOGIN, prefixed(Seq::empty()))
}

/// The state of one connection.
#[derive(Debug, Clone, Copy, PartialEq, Eq)]
pub struct Session {
    pub state: SessionState,
}

impl Session {
    /// A connection over which nothing has been read yet.
    pub fn new() -> (r: Self)
        ensures
            r.state == SessionState::Start,
    {
        Session { state: SessionState::Start }
    }

    /// What the reader has to read behind the id `id`.
    pub fn expect(&self, id: u16) -> (r: FrameShape)
        ensures
            r == shape_of(self.state, id),
    {
        match self.state {
            SessionState::Start => if id == ID_LOGIN {
                FrameShape::Prefixed(0)
            } else {
                FrameShape::Unknown
            },
            SessionState::Play(_) => if id == ID_CHUNK {
                FrameShape::Fixed(12)
            } else if id == ID_BLOCK_UPDATE {
                FrameShape::Fixed(16)
            } else if id == ID_PLAYER_POSITION {
                FrameShape::Fixed(32)
            } else {
                FrameShape::Unknown
            },
            SessionState::Terminated => FrameShape::Unknown,
        }
    }

    /// Decides what a login request leads to, given the name that it
    /// carries, if its payload could be read, and whether that name is
    /// alphanumeric. A name that could be read and is alphanumeric goes to
    /// the world; anything else is refused, and the connection is over.
    /// Outside the state `Start` the connection is over without a word.
    pub fn login_requested(&mut self, name: Option<String>, alphanumeric: bool) -> (r: Reaction)
        ensures
            match old(self).state {
                SessionState::Start => match name {
                    Some(text) if alphanumeric => final(self).state == SessionState::Start
                        && r == Reaction::AskLogin(Command::Login(text)),
                    _ => final(self).state == SessionState::Terminated && (
                    r matches Reaction::Refuse(package) && package@ == refusal()),
                },
                _ => final(self).state == SessionState::Terminated && r is Close,
            },
    {
        match self.state {
            SessionState::Start => {},
            _ => {
                self.state = SessionState::Terminated;
                return Reaction::Close;
            },
        }
        match name {
            Some(text) => {
                if alphanumeric {
                    return Reaction::AskLogin(Command::Login(text));
                }
            },
            None => {},
        }
        self.state = SessionState::Terminated;
        let no_reason: Vec<u8> = Vec::new();
        let package = login_failed_package(no_reason.as_slice());
        assert(no_reason@ =~= Seq::empty());
        Reaction::Refuse(package)
    }

    /// Takes the answer of the world to a login: with a uid the player is
    /// playing, without one the login is refused and the connection is
    /// over. Outside the state `Start` the connection is over without a
    /// word.
    pub fn login_answered(&mut self, reply: Option<UID>) -> (r: Reaction)
        ensures
            match (old(self).state, reply) {
                (SessionState::Start, Some(uid)) => final(self).state == SessionState::Play(uid)
                    && r is Proceed,
                (SessionState::Start, None) => final(self).state == SessionState::Terminated && (
                r matches Reaction::Refuse(package) && package@ == refusal()),
                _ => final(self).state == SessionState::Terminated && r is Close,
            },
    {
        match self.state {
            SessionState::Start => {},
            _ => {
                self.state = SessionState::Terminated;
                return Reaction::Close;
            },
        }
        match reply {
            Some(uid) => {
                self.state = SessionState::Play(uid);
                Reaction::Proceed
            },
            None => {
                self.state = SessionState::Terminated;
                let no_reason: Vec<u8> = Vec::new();
                let package = login_failed_package(no_reason.as_slice());
                assert(no_reason@ =~= Seq::empty());
                Reaction::Refuse(package)
            },
        }
    }

    /// Takes a frame that was read whole: its id and its payload.
    ///
    /// In the state `Start` only a login is in order; it is decided as
    /// `login_requested` says, and any other frame ends the connection. In
    /// the state `Play` a chunk request, a block update and a position, each
    /// of the length that `expect` gives, go to the world under the uid of
    /// the player; any other frame ends the connection, and the world is
    /// told that the player is gone.
    pub fn receive(&mut self, id: u16, payload: &[u8]) -> (r: Reaction)
        ensures
            match old(self).state {
                SessionState::Start => if id == ID_LOGIN {
                    if is_prefixed(payload@, 0) && valid_utf8(prefixed_body(payload@))
                        && all_alphanumeric(decode_utf8(prefixed_body(payload@))) {
                        final(self).state == SessionState::Start && (
                        r matches Reaction::AskLogin(Command::Login(name)) && name@
                            == decode_utf8(prefixed_body(payload@)))
                    } else {
                        final(self).state == SessionState::Terminated && (
                        r matches Reaction::Refuse(package) && package@ == refusal())
                    }
                } else {
                    final(self).state == SessionState::Terminated && r is Close
                },
                SessionState::Play(uid) => if has_shape(shape_of(old(self).state, id), payload@) {
                    final(self).state == old(self).state && r == Reaction::Forward(
                        uid,
                        if id == ID_CHUNK {
                            Command::ChunkData(parse_pos(payload@))
                        } else if id == ID_BLOCK_UPDATE {
                            Command::BlockUpdate(
                                PackageBlockUpdate::parse(payload@).pos,
                                PackageBlockUpdate::parse(payload@).block,
                            )
                        } else {
                            Command::PlayerPosition(
                                ClientPackagePlayerPosition::parse(payload@).pos,
                                ClientPackagePlayerPosition::parse(payload@).pitch,
                                ClientPackagePlayerPosition::parse(payload@).yaw,
                            )
                        },
                    )
                } else {
                    final(self).state == SessionState::Terminated && r == Reaction::Leave(uid)
                },
                SessionState::Terminated => final(self).state == SessionState::Terminated
                    && r is Close,
            },
    {
        match self.state {
            SessionState::Start => {
                if id == ID_LOGIN {
                    let name = read_login(payload);
                    let alphanumeric = match &name {
                        Some(text) => is_alphanumeric_name(text.as_str()),
                        None => false,
                    };
                    self.login_requested(name, alphanumeric)
                } else {
                    self.state = SessionState::Terminated;
                    Reaction::Close
                }
            },
            SessionState::Play(uid) => {
                let command = if id == ID_CHUNK {
                    match read_request_chunk(payload) {
                        Some(pos) => Some(Command::ChunkData(pos)),
                        None => None,
                    }
                } else if id == ID_BLOCK_UPDATE {
                    match PackageBlockUpdate::new(payload) {
                        Some(package) => Some(Command::BlockUpdate(package.pos, package.block)),
                        None => None,
                    }
                } else if id == ID_PLAYER_POSITION {
                    match ClientPackagePlayerPosition::new(payload) {
                        Some(package) => Some(
                            Command::PlayerPosition(package.pos, package.pitch, package.yaw),
                        ),
                        None => None,
                    }
                } else {
                    None
                };
                match command {
                    Some(command) => Reaction::Forward(uid, command),
                    None => {
                        self.state = SessionState::Terminated;
                        Reaction::Leave(uid)
                    },
                }
            },
            SessionState::Terminated => Reaction::Close,
        }
    }

    /// The connection broke, or its writer stopped: the connection is over,
    /// and where a player was playing the world is told that it is gone.
    pub fn fail(&mut self) -> (r: Reaction)
        ensures
            final(self).state == SessionState::Terminated,
            r == match old(self).state {
                SessionState::Play(uid) => Reaction::Leave(uid),
                _ => Reaction::Close,
            },
    {
        let r = match self.state {
            SessionState::Play(uid) => Reaction::Leave(uid),
            _ => Reaction::Close,
        };
        self.state = SessionState::Terminated;
        r
    }
}

} // verus!

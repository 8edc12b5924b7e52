//! The players as a client knows them.

use vstd::prelude::*;

use crate::net::packages::ServerPackagePlayerPosition;

verus! {

/// A player as a client knows it. Position and angles are the bit patterns
/// of their IEEE-754 numbers.
#[derive(Debug, PartialEq, Eq)]
pub struct Player {
    pub name: String,
    pub uid: u64,
    pub position: [u64; 3],
    pub pitch: u32,
    pub yaw: u32,
}

impl Player {
    /// The player `uid` as it is known when it has just been announced: at
    /// the origin, looking straight ahead.
    pub open spec fn arrived(name: String, uid: u64) -> Player {
        Player { name, uid, position: [0u64, 0u64, 0u64], pitch: 0, yaw: 0 }
    }

    /// This player standing and looking elsewhere.
    pub open spec fn placed(self, pos: [u64; 3], pitch: u32, yaw: u32) -> Player {
        Player { name: self.name, uid: self.uid, position: pos, pitch, yaw }
    }

    /// This player after the server has said where some player stands:
    /// moved if it is the player meant, else as before.
    pub open spec fn told(self, package: ServerPackagePlayerPosition) -> Player {
        if self.uid == package.uid {
            self.placed(package.pos, package.pitch, package.yaw)
        } else {
            self
        }
    }

    pub fn new(name: String, uid: u64) -> (r: Self)
        ensures
            r == Self::arrived(name, uid),
    {
        Player { name, uid, position: [0, 0, 0], pitch: 0, yaw: 0 }
    }

    /// Puts the player where it stands and looks now.
    pub fn update_pos_pitch_yaw(&mut self, pos: [u64; 3], pitch: u32, yaw: u32)
        ensures
            *final(self) == old(self).placed(pos, pitch, yaw),
    {
        self.position = pos;
        self.pitch = pitch;
        self.yaw = yaw;
    }
}

/// The players that a client knows of: the player at this client, and the
/// others in the order in which they were announced.
#[derive(Debug)]
pub struct Players {
    players: Vec<Player>,
    local_player: Player,
}

impl Players {
    /// The other players.
    pub closed spec fn others(&self) -> Seq<Player> {
        self.players@
    }

    /// The player at this client.
    pub closed spec fn local(&self) -> Player {
        self.local_player
    }

    /// Only the player at this client is known.
    pub fn new(local_player: Player) -> (r: Self)
        ensures
            r.local() == local_player,
            r.others() == Seq::<Player>::empty(),
    {
        Players { players: Vec::new(), local_player }
    }

    /// Another player has been announced.
    pub fn add_player(&mut self, name: String, uid: u64)
        ensures
            final(self).local() == old(self).local(),
            final(self).others() == old(self).others().push(Player::arrived(name, uid)),
    {
        self.players.push(Player::new(name, uid));
    }

    /// The player `uid` is gone: it is no longer among the others.
    pub fn remove_player(&mut self, uid: u64)
        ensures
            final(self).local() == old(self).local(),
            final(self).others() == old(self).others().filter(|p: Player| p.uid != uid),
    {
        let ghost stays = |p: Player| p.uid != uid;
        let mut all: Vec<Player> = Vec::new();
        std::mem::swap(&mut all, &mut self.players);
        let ghost given = all@;
        proof {
            reveal(Seq::filter);
            assert(given.take(0) =~= Seq::empty());
        }
        for player in it: all
            invariant
                it.seq() == given,
                stays == |p: Player| p.uid != uid,
                self.local_player == old(self).local_player,
                self.players@ == given.take(it.index() as int).filter(stays),
        {
            proof {
                reveal(Seq::filter);
                assert(given.take(it.index() + 1).drop_last() =~= given.take(it.index() as int));
                assert(given.take(it.index() + 1).last() == player);
            }
            if player.uid != uid {
                self.players.push(player);
            }
        }
        assert(given.take(given.len() as int) =~= given);
    }

    /// The server has said where some player stands: whoever is meant,
    /// among the others or at this client, is put there.
    pub fn update(&mut self, package: &ServerPackagePlayerPosition)
        ensures
            final(self).local() == old(self).local().told(*package),
            final(self).others().len() == old(self).others().len(),
            forall|i: int|
                0 <= i < old(self).others().len() ==> (#[trigger] final(self).others()[i]) == old(
                    self,
                ).others()[i].told(*package),
    {
        let mut i: usize = 0;
        while i < self.players.len()
            invariant
                i <= self.players@.len(),
                self.local_player == old(self).local_player,
                self.players@.len() == old(self).players@.len(),
                forall|j: int|
                    0 <= j < i ==> (#[trigger] self.players@[j]) == old(self).players@[j].told(
                        *package,
                    ),
                forall|j: int|
                    i <= j < self.players@.len() ==> (#[trigger] self.players@[j]) == old(
                        self,
                    ).players@[j],
            decreases self.players@.len() - i,
        {
            if self.players[i].uid == package.uid {
                self.players[i].update_pos_pitch_yaw(package.pos, package.pitch, package.yaw);
            }
            i = i + 1;
        }
        if self.local_player.uid == package.uid {
            self.local_player.update_pos_pitch_yaw(package.pos, package.pitch, package.yaw);
        }
    }

    /// The other players.
    pub fn players(&self) -> (r: &Vec<Player>)
        ensures
            r@ == self.others(),
    {
        &self.players
    }

    /// The player at this client.
    pub fn local_player(&self) -> (r: &Player)
        ensures
            *r == self.local(),
    {
        &self.local_player
    }
}

} // verus!

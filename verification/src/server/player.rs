//! Who is registered and who is online.

use std::sync::Arc;
use vstd::prelude::*;

use crate::net::framing::name_fits;
use crate::net::names::{all_alphanumeric, is_alphanumeric_name};
use super::{Delivery, DeliveryClass, UID};

verus! {

/// What is kept of a player between sessions. Position and angles are the
/// bit patterns of their IEEE-754 numbers.
#[derive(Debug, PartialEq, Eq)]
pub struct Player {
    pub name: String,
    pub pos: [u64; 3],
    pub pitch: u32,
    pub yaw: u32,
}

impl Clone for Player {
    fn clone(&self) -> (r: Self)
        ensures
            r == *self,
    {
        Player { name: self.name.clone(), pos: self.pos, pitch: self.pitch, yaw: self.yaw }
    }
}

impl Player {
    /// A player who has never moved: at the origin, looking straight ahead.
    pub open spec fn fresh(name: String) -> Player {
        Player { name, pos: [0u64, 0u64, 0u64], pitch: 0, yaw: 0 }
    }

    /// This player standing and looking elsewhere.
    pub open spec fn moved(self, pos: [u64; 3], pitch: u32, yaw: u32) -> Player {
        Player { name: self.name, pos, pitch, yaw }
    }

    pub fn new(name: String) -> (r: Self)
        ensures
            r == Self::fresh(name),
    {
        Player { name, pos: [0, 0, 0], pitch: 0, yaw: 0 }
    }
}

/// A player who is online: the live record and the uid it plays under.
#[derive(Debug, PartialEq, Eq)]
pub struct ServerPlayer {
    pub player: Player,
    pub uid: usize,
}

/// Whether `i` is the first place in `registered` that holds `name`.
pub open spec fn is_first(registered: Seq<Player>, name: Seq<char>, i: int) -> bool {
    &&& 0 <= i < registered.len()
    &&& registered[i].name@ == name
    &&& forall|j: int| 0 <= j < i ==> (#[trigger] registered[j]).name@ != name
}

/// The first place in `registered` that holds `name`, or the length of
/// `registered` if none does.
pub open spec fn find_name(registered: Seq<Player>, name: Seq<char>) -> int {
    if exists|i: int| is_first(registered, name, i) {
        choose|i: int| is_first(registered, name, i)
    } else {
        registered.len() as int
    }
}

/// The first place that holds a name is the place that `find_name` gives.
pub proof fn lemma_find_first(registered: Seq<Player>, name: Seq<char>, i: int)
    requires
        is_first(registered, name, i),
    ensures
        find_name(registered, name) == i,
{
    let found = choose|k: int| is_first(registered, name, k);
    assert(is_first(registered, name, found));
    if found < i {
        assert(registered[found].name@ != name);
    }
    if i < found {
        assert(registered[i].name@ != name);
    }
}

/// A name that no place holds is found behind the last place.
pub proof fn lemma_find_absent(registered: Seq<Player>, name: Seq<char>)
    requires
        forall|j: int| 0 <= j < registered.len() ==> (#[trigger] registered[j]).name@ != name,
    ensures
        find_name(registered, name) == registered.len(),
{
    if exists|i: int| is_first(registered, name, i) {
        let found = choose|k: int| is_first(registered, name, k);
        assert(registered[found].name@ != name);
    }
}

/// What `find_name` gives is either the first place that holds the name or,
/// where no place holds it, the length.
pub proof fn lemma_find_name(registered: Seq<Player>, name: Seq<char>)
    ensures
        0 <= find_name(registered, name) <= registered.len(),
        find_name(registered, name) < registered.len() ==> is_first(
            registered,
            name,
            find_name(registered, name),
        ),
        find_name(registered, name) == registered.len() ==> forall|j: int|
            0 <= j < registered.len() ==> (#[trigger] registered[j]).name@ != name,
{
    if exists|i: int| is_first(registered, name, i) {
    } else {
        assert forall|j: int| 0 <= j < registered.len() implies (#[trigger] registered[j]).name@
            != name by {
            lemma_no_first(registered, name, j);
        }
    }
}

proof fn lemma_no_first(registered: Seq<Player>, name: Seq<char>, j: int)
    requires
        !exists|i: int| is_first(registered, name, i),
        0 <= j < registered.len(),
    ensures
        registered[j].name@ != name,
    decreases j,
{
    if registered[j].name@ == name {
        assert forall|k: int| 0 <= k < j implies (#[trigger] registered[k]).name@ != name by {
            lemma_no_first(registered, name, k);
        }
        assert(is_first(registered, name, j));
    }
}

/// Whether no two of `registered` bear the same name.
pub open spec fn distinct_names(registered: Seq<Player>) -> bool {
    forall|i: int, j: int|
        0 <= i < j < registered.len() ==> (#[trigger] registered[i]).name@ != (
        #[trigger] registered[j]).name@
}

/// Whether every name in `registered` is alphanumeric.
pub open spec fn alphanumeric_names(registered: Seq<Player>) -> bool {
    forall|i: int|
        0 <= i < registered.len() ==> all_alphanumeric((#[trigger] registered[i]).name@)
}

/// Whether every name in `registered` fits a frame.
pub open spec fn fitting_names(registered: Seq<Player>) -> bool {
    forall|i: int| 0 <= i < registered.len() ==> name_fits((#[trigger] registered[i]).name@)
}

/// The registry as a value: the records of all registered players, and for
/// each of them the live record while the player is online.
pub ghost struct Roster {
    pub registered: Seq<Player>,
    pub online: Seq<Option<ServerPlayer>>,
}

impl Roster {
    /// Every registered player has a place in both tables, a uid, a name of
    /// its own and one that fits a frame; the live record of a player who is
    /// online bears the uid and the name of the registered one.
    pub open spec fn sound(self) -> bool {
        &&& self.registered.len() == self.online.len()
        &&& self.registered.len() <= usize::MAX
        &&& forall|i: int|
            0 <= i < self.registered.len() ==> name_fits((#[trigger] self.registered[i]).name@)
        &&& distinct_names(self.registered)
        &&& forall|i: int|
            0 <= i < self.online.len() ==> ((#[trigger] self.online[i]) matches Some(p) ==> p.uid
                == i && p.player.name == self.registered[i].name)
    }

    /// The registry is sound, and every name in it is alphanumeric.
    pub open spec fn wf(self) -> bool {
        self.sound() && alphanumeric_names(self.registered)
    }

    /// Whether the player `uid` is online.
    pub open spec fn is_online(self, uid: UID) -> bool {
        uid < self.online.len() && self.online[uid as int] is Some
    }

    /// The live record of the player `uid`, who is online.
    pub open spec fn live(self, uid: UID) -> Player {
        self.online[uid as int]->0.player
    }

    /// Whether somebody is online under `name`.
    pub open spec fn name_online(self, name: Seq<char>) -> bool {
        let i = find_name(self.registered, name);
        i < self.registered.len() && self.online[i] is Some
    }

    /// The uid that is free for `name`: none for a name that does not fit a
    /// frame or is online already, else the uid that the name is registered
    /// under, or the next free one.
    pub open spec fn free_uid(self, name: Seq<char>) -> Option<UID> {
        if !name_fits(name) || self.name_online(name) {
            None
        } else {
            Some(find_name(self.registered, name) as usize)
        }
    }

    /// The registry after the player `name` has come in under the uid that
    /// is free for it: unchanged where none is.
    pub open spec fn entered(self, name: String) -> Roster {
        let i = find_name(self.registered, name@);
        if self.free_uid(name@) is None {
            self
        } else if i < self.registered.len() {
            Roster {
                registered: self.registered,
                online: self.online.update(
                    i,
                    Some(ServerPlayer { player: self.registered[i], uid: i as usize }),
                ),
            }
        } else {
            Roster {
                registered: self.registered.push(Player::fresh(name)),
                online: self.online.push(
                    Some(ServerPlayer { player: Player::fresh(name), uid: i as usize }),
                ),
            }
        }
    }

    /// The uid that a login under `name` is answered with: none for a name
    /// that is not alphanumeric, does not fit a frame or is online already,
    /// else the uid that the name is registered under, or the next free one.
    pub open spec fn login_uid(self, name: Seq<char>) -> Option<UID> {
        if all_alphanumeric(name) {
            self.free_uid(name)
        } else {
            None
        }
    }

    /// The registry after a login under `name`: unchanged where the login
    /// is refused.
    pub open spec fn login(self, name: String) -> Roster {
        if all_alphanumeric(name@) {
            self.entered(name)
        } else {
            self
        }
    }

    /// The registry after the player `uid` left: the live record replaces
    /// the registered one. Unchanged where `uid` is not online.
    pub open spec fn logout(self, uid: UID) -> Roster {
        if self.is_online(uid) {
            Roster {
                registered: self.registered.update(uid as int, self.live(uid)),
                online: self.online.update(uid as int, None),
            }
        } else {
            self
        }
    }

    /// The registry after the player `uid` said where it stands and looks.
    /// Unchanged where `uid` is not online.
    pub open spec fn moved(self, uid: UID, pos: [u64; 3], pitch: u32, yaw: u32) -> Roster {
        if self.is_online(uid) {
            Roster {
                registered: self.registered,
                online: self.online.update(
                    uid as int,
                    Some(ServerPlayer { player: self.live(uid).moved(pos, pitch, yaw), uid }),
                ),
            }
        } else {
            self
        }
    }

    /// The registry after every live record has been copied over its
    /// registered one.
    pub open spec fn synced(self) -> Roster {
        Roster {
            registered: Seq::new(
                self.registered.len(),
                |i: int|
                    if self.online[i] is Some {
                        self.online[i]->0.player
                    } else {
                        self.registered[i]
                    },
            ),
            online: self.online,
        }
    }

    /// Whether `uids` lists, in ascending order, exactly the players who are
    /// online and are not `except`.
    pub open spec fn is_audience(self, except: UID, uids: Seq<UID>) -> bool {
        &&& forall|a: int, b: int| 0 <= a < b < uids.len() ==> uids[a] < uids[b]
        &&& forall|uid: UID| uids.contains(uid) <==> self.is_online(uid) && uid != except
    }
}

/// The registry of players.
#[derive(Debug)]
pub struct Players {
    registered: Vec<Player>,
    online: Vec<Option<ServerPlayer>>,
}

impl View for Players {
    type V = Roster;

    closed spec fn view(&self) -> Roster {
        Roster { registered: self.registered@, online: self.online@ }
    }
}

impl Players {
    /// A registry of the given players, nobody online, given whether all
    /// their names are alphanumeric; `None` if they are not, if one of them
    /// does not fit a frame, or if two players bear the same name.
    pub fn from_checked(players: Vec<Player>, alphanumeric: bool) -> (r: Option<Self>)
        ensures
            r is Some <==> alphanumeric && fitting_names(players@) && distinct_names(players@),
            r matches Some(p) ==> p@.sound() && p@.registered == players@ && p@.online == Seq::new(
                players@.len(),
                |i: int| None::<ServerPlayer>,
            ),
    {
        if !alphanumeric {
            return None;
        }
        let mut online: Vec<Option<ServerPlayer>> = Vec::with_capacity(players.len());
        let mut i: usize = 0;
        while i < players.len()
            invariant
                i <= players@.len(),
                online@.len() == i,
                fitting_names(players@.take(i as int)),
                distinct_names(players@.take(i as int)),
                forall|j: int| 0 <= j < i ==> (#[trigger] online@[j]) is None,
            decreases players@.len() - i,
        {
            if players[i].name.as_str().as_bytes().len() > 65535 {
                assert(!name_fits(players@[i as int].name@));
                return None;
            }
            let mut k: usize = 0;
            while k < i
                invariant
                    k <= i < players@.len(),
                    forall|j: int|
                        0 <= j < k ==> (#[trigger] players@[j]).name@ != players@[i as int].name@,
                decreases i - k,
            {
                if players[k].name == players[i].name {
                    return None;
                }
                k = k + 1;
            }
            proof {
                let before = players@.take(i as int);
                let after = players@.take(i + 1);
                assert forall|a: int, b: int| 0 <= a < b < after.len() implies (
                #[trigger] after[a]).name@ != (#[trigger] after[b]).name@ by {
                    if b < i {
                        assert(before[a].name@ != before[b].name@);
                    }
                }
                assert forall|a: int| 0 <= a < after.len() implies name_fits(
                    (#[trigger] after[a]).name@,
                ) by {
                    if a < i {
                        assert(name_fits(before[a].name@));
                    }
                }
            }
            online.push(None);
            i = i + 1;
        }
        assert(players@.take(players@.len() as int) =~= players@);
        let r = Players { registered: players, online };
        assert(r@.online =~= Seq::new(players@.len(), |i: int| None::<ServerPlayer>));
        Some(r)
    }

    /// A registry of the given players, nobody online; `None` if one of the
    /// names is not alphanumeric or does not fit a frame, or if two players
    /// bear the same name.
    pub fn new(players: Vec<Player>) -> (r: Option<Self>)
        ensures
            r is Some <==> alphanumeric_names(players@) && fitting_names(players@)
                && distinct_names(players@),
            r matches Some(p) ==> p@.wf() && p@.registered == players@ && p@.online == Seq::new(
                players@.len(),
                |i: int| None::<ServerPlayer>,
            ),
    {
        let mut alphanumeric = true;
        let mut i: usize = 0;
        while i < players.len()
            invariant
                i <= players@.len(),
                alphanumeric == alphanumeric_names(players@.take(i as int)),
            decreases players@.len() - i,
        {
            let ghost before = players@.take(i as int);
            let ghost after = players@.take(i + 1);
            let this = is_alphanumeric_name(players[i].name.as_str());
            proof {
                assert(after[i as int] == players@[i as int]);
                if alphanumeric && this {
                    assert forall|a: int| 0 <= a < after.len() implies all_alphanumeric(
                        (#[trigger] after[a]).name@,
                    ) by {
                        if a < i {
                            assert(all_alphanumeric(before[a].name@));
                        }
                    }
                }
                if alphanumeric_names(after) {
                    assert forall|a: int| 0 <= a < before.len() implies all_alphanumeric(
                        (#[trigger] before[a]).name@,
                    ) by {
                        assert(after[a] == before[a]);
                    }
                }
            }
            if !this {
                alphanumeric = false;
            }
            i = i + 1;
        }
        assert(players@.take(players@.len() as int) =~= players@);
        Self::from_checked(players, alphanumeric)
    }

    /// The first place that holds `name`, or the number of registered
    /// players if none does.
    fn find(&self, name: &String) -> (i: usize)
        ensures
            i == find_name(self.registered@, name@),
    {
        let mut i: usize = 0;
        while i < self.registered.len()
            invariant
                i <= self.registered@.len(),
                forall|j: int| 0 <= j < i ==> (#[trigger] self.registered@[j]).name@ != name@,
            decreases self.registered@.len() - i,
        {
            if self.registered[i].name == *name {
                proof {
                    lemma_find_first(self.registered@, name@, i as int);
                }
                return i;
            }
            i = i + 1;
        }
        proof {
            lemma_find_absent(self.registered@, name@);
        }
        i
    }

    /// Decides a login under `name`, given whether the name is
    /// alphanumeric, and gives the uid the player plays under, or `None`
    /// if the name is not alphanumeric, does not fit a frame or is online
    /// already; then nothing changes. A name that was never seen is
    /// registered under the next free uid. The registry stays well-formed
    /// as long as no name is said to be alphanumeric that is not.
    pub fn decide_login(&mut self, name: String, alphanumeric: bool) -> (r: Option<UID>)
        requires
            old(self)@.wf(),
        ensures
            final(self)@.sound(),
            (alphanumeric ==> all_alphanumeric(name@)) ==> final(self)@.wf(),
            r == if alphanumeric {
                old(self)@.free_uid(name@)
            } else {
                None
            },
            final(self)@ == if alphanumeric {
                old(self)@.entered(name)
            } else {
                old(self)@
            },
    {
        if !alphanumeric || name.as_str().as_bytes().len() > 65535 {
            return None;
        }
        let i = self.find(&name);
        proof {
            lemma_find_name(self.registered@, name@);
        }
        if i < self.registered.len() {
            if self.online[i].is_none() {
                let player = self.registered[i].clone();
                self.online[i] = Some(ServerPlayer { player, uid: i });
                assert(self@.online =~= old(self)@.entered(name).online);
                Some(i)
            } else {
                None
            }
        } else {
            let fresh = Player::new(name);
            let player = fresh.clone();
            self.registered.push(fresh);
            self.online.push(Some(ServerPlayer { player, uid: i }));
            assert(self@.registered =~= old(self)@.entered(name).registered);
            assert(self@.online =~= old(self)@.entered(name).online);
            proof {
                let before = old(self)@;
                let after = self@;
                assert(self.registered.len() == after.registered.len());
                assert forall|a: int, b: int| 0 <= a < b < after.registered.len() implies (
                #[trigger] after.registered[a]).name@ != (#[trigger] after.registered[b]).name@ by {
                    if b < before.registered.len() {
                        assert(before.registered[a].name@ != before.registered[b].name@);
                    } else {
                        assert(before.registered[a].name@ != name@);
                    }
                }
                assert forall|a: int| 0 <= a < after.registered.len() implies name_fits(
                    (#[trigger] after.registered[a]).name@,
                ) by {
                    if a < before.registered.len() {
                        assert(name_fits(before.registered[a].name@));
                    }
                }
                if all_alphanumeric(name@) {
                    assert forall|a: int|
                        0 <= a < after.registered.len() implies all_alphanumeric(
                        (#[trigger] after.registered[a]).name@,
                    ) by {
                        if a < before.registered.len() {
                            assert(all_alphanumeric(before.registered[a].name@));
                        }
                    }
                }
            }
            Some(i)
        }
    }

    /// Logs a player in under `name` and gives the uid it plays under, or
    /// `None` if the name is not alphanumeric, does not fit a frame or is
    /// online already; then nothing changes. A name that was never seen is
    /// registered under the next free uid.
    pub fn login(&mut self, name: String) -> (r: Option<UID>)
        requires
            old(self)@.wf(),
        ensures
            final(self)@.wf(),
            r == old(self)@.login_uid(name@),
            final(self)@ == old(self)@.login(name),
    {
        let alphanumeric = is_alphanumeric_name(name.as_str());
        self.decide_login(name, alphanumeric)
    }

    /// Logs the player `uid` out and keeps its live record as the registered
    /// one. Nothing happens if `uid` is not online.
    pub fn logout(&mut self, uid: UID)
        requires
            old(self)@.wf(),
        ensures
            final(self)@.wf(),
            final(self)@ == old(self)@.logout(uid),
    {
        if uid < self.online.len() {
            match self.online[uid].take() {
                Some(left) => {
                    self.registered[uid] = left.player;
                },
                None => {},
            }
        }
        assert(self@.registered =~= old(self)@.logout(uid).registered);
        assert(self@.online =~= old(self)@.logout(uid).online);
    }

    /// Takes down where the player `uid` stands and looks. Nothing happens
    /// if `uid` is not online.
    pub fn set_pose(&mut self, uid: UID, pos: [u64; 3], pitch: u32, yaw: u32)
        requires
            old(self)@.wf(),
        ensures
            final(self)@.wf(),
            final(self)@ == old(self)@.moved(uid, pos, pitch, yaw),
    {
        if uid < self.online.len() {
            match self.online[uid].take() {
                Some(mut live) => {
                    live.player.pos = pos;
                    live.player.pitch = pitch;
                    live.player.yaw = yaw;
                    self.online[uid] = Some(live);
                },
                None => {},
            }
        }
        assert(self@.online =~= old(self)@.moved(uid, pos, pitch, yaw).online);
    }

    /// Copies the live record of everybody who is online over the
    /// registered one, so that the registered records are ready to be
    /// written down.
    pub fn sync_to_disk(&mut self)
        requires
            old(self)@.wf(),
        ensures
            final(self)@.wf(),
            final(self)@ == old(self)@.synced(),
    {
        let mut i: usize = 0;
        while i < self.registered.len()
            invariant
                i <= self.registered@.len(),
                old(self)@.wf(),
                self.online@ == old(self).online@,
                self.registered@.len() == old(self).registered@.len(),
                forall|j: int|
                    0 <= j < i ==> (#[trigger] self.registered@[j]) == old(
                        self,
                    )@.synced().registered[j],
                forall|j: int|
                    i <= j < self.registered@.len() ==> (#[trigger] self.registered@[j]) == old(
                        self,
                    ).registered@[j],
            decreases self.registered@.len() - i,
        {
            match &self.online[i] {
                Some(live) => {
                    let player = live.player.clone();
                    self.registered[i] = player;
                },
                None => {},
            }
            i = i + 1;
        }
        assert(self@.registered =~= old(self)@.synced().registered);
    }

    /// The records of all registered players, by uid.
    pub fn registered(&self) -> (r: &Vec<Player>)
        ensures
            r@ == self@.registered,
    {
        &self.registered
    }

    /// Whether the player `uid` is online.
    pub fn is_online(&self, uid: UID) -> (r: bool)
        ensures
            r == self@.is_online(uid),
    {
        uid < self.online.len() && self.online[uid].is_some()
    }

    /// The live record of the player `uid`, if it is online.
    pub fn player(&self, uid: UID) -> (r: Option<&Player>)
        ensures
            r is Some <==> self@.is_online(uid),
            r matches Some(p) ==> *p == self@.live(uid),
    {
        if uid < self.online.len() {
            match &self.online[uid] {
                Some(live) => Some(&live.player),
                None => None,
            }
        } else {
            None
        }
    }

    /// The uids of everybody who is online, except `except`, in ascending
    /// order.
    pub fn audience(&self, except: UID) -> (r: Vec<UID>)
        ensures
            self@.is_audience(except, r@),
    {
        let mut out: Vec<UID> = Vec::new();
        let mut i: usize = 0;
        while i < self.online.len()
            invariant
                i <= self.online@.len(),
                forall|a: int, b: int| 0 <= a < b < out@.len() ==> out@[a] < out@[b],
                forall|a: int| 0 <= a < out@.len() ==> (#[trigger] out@[a]) < i,
                forall|uid: UID|
                    out@.contains(uid) <==> uid < i && self@.is_online(uid) && uid != except,
            decreases self.online@.len() - i,
        {
            if self.online[i].is_some() && i != except {
                let ghost before = out@;
                out.push(i);
                assert forall|uid: UID|
                    out@.contains(uid) <==> uid < i + 1 && self@.is_online(uid) && uid
                        != except by {
                    if out@.contains(uid) {
                        let a = choose|a: int| 0 <= a < out@.len() && out@[a] == uid;
                        if a < before.len() {
                            assert(before[a] == uid);
                            assert(before.contains(uid));
                        }
                    }
                    if uid < i + 1 && self@.is_online(uid) && uid != except {
                        if uid < i {
                            assert(before.contains(uid));
                            let a = choose|a: int| 0 <= a < before.len() && before[a] == uid;
                            assert(out@[a] == uid);
                        } else {
                            assert(out@[before.len() as int] == uid);
                        }
                    }
                }
            }
            i = i + 1;
        }
        out
    }

    /// `package` for everybody who is online.
    pub fn broadcast(&self, package: Arc<[u8]>, class: DeliveryClass) -> (r: Delivery)
        ensures
            r.package == package,
            r.class == class,
            self@.is_audience(super::NOUSER, r.recipients@),
    {
        Delivery { package, recipients: self.audience(super::NOUSER), class }
    }

    /// `package` for everybody who is online, except `except`.
    pub fn broadcast_filtered(&self, package: Arc<[u8]>, class: DeliveryClass, except: UID) -> (r:
        Delivery)
        ensures
            r.package == package,
            r.class == class,
            self@.is_audience(except, r.recipients@),
    {
        Delivery { package, recipients: self.audience(except), class }
    }
}

/// Logging in, out and in again under one name gives the same uid.
pub proof fn lemma_uid_is_stable(roster: Roster, name: String)
    requires
        roster.wf(),
        roster.login_uid(name@) is Some,
    ensures
        roster.login(name).logout(roster.login_uid(name@)->0).login_uid(name@) == roster.login_uid(
            name@,
        ),
{
    let uid = roster.login_uid(name@)->0;
    let inside = roster.login(name);
    let outside = inside.logout(uid);
    lemma_find_name(roster.registered, name@);
    assert(inside.is_online(uid));
    assert(inside.registered[uid as int].name@ == name@);
    assert(outside.registered[uid as int].name@ == name@);
    assert forall|j: int| 0 <= j < uid implies (#[trigger] outside.registered[j]).name@
        != name@ by {
        assert(roster.registered[j].name@ != name@);
    }
    lemma_find_first(outside.registered, name@, uid as int);
}

/// While a player is online, a second login under its name is refused and
/// changes nothing.
pub proof fn lemma_one_login_per_name(roster: Roster, name: String)
    requires
        roster.wf(),
        roster.login_uid(name@) is Some,
    ensures
        roster.login(name).login_uid(name@) is None,
        roster.login(name).login(name) == roster.login(name),
{
    let uid = roster.login_uid(name@)->0;
    let inside = roster.login(name);
    lemma_find_name(roster.registered, name@);
    assert(inside.registered[uid as int].name@ == name@);
    assert forall|j: int| 0 <= j < uid implies (#[trigger] inside.registered[j]).name@ != name@ by {
        assert(roster.registered[j].name@ != name@);
    }
    lemma_find_first(inside.registered, name@, uid as int);
}

/// A login is refused exactly where the name is not alphanumeric, does not
/// fit a frame, or somebody is online under it; where it is accepted, the
/// player is online under the uid given and the record there bears the
/// name.
pub proof fn lemma_login_answer(roster: Roster, name: String)
    requires
        roster.wf(),
    ensures
        roster.login_uid(name@) is None <==> !all_alphanumeric(name@) || !name_fits(name@)
            || roster.name_online(name@),
        roster.login_uid(name@) is None ==> roster.login(name) == roster,
        roster.login_uid(name@) matches Some(uid) ==> roster.login(name).is_online(uid)
            && roster.login(name).registered[uid as int].name@ == name@ && roster.login(
            name,
        ).live(uid).name@ == name@,
{
    lemma_find_name(roster.registered, name@);
}

/// In a well-formed registry no two players are online under one name.
pub proof fn lemma_names_online_once(roster: Roster, a: UID, b: UID)
    requires
        roster.wf(),
        roster.is_online(a),
        roster.is_online(b),
        roster.live(a).name@ == roster.live(b).name@,
    ensures
        a == b,
{
    if a < b {
        assert(roster.registered[a as int].name@ != roster.registered[b as int].name@);
    }
    if b < a {
        assert(roster.registered[b as int].name@ != roster.registered[a as int].name@);
    }
}

} // verus!

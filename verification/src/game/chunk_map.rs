//! A map from chunk positions to whatever is kept for each chunk.

use std::collections::HashMap;
use std::collections::hash_map::Entry;
use vstd::prelude::*;

use crate::net::wire::{i32_bits, i32_to_bits};
use super::ChunkIndex;

verus! {

/// The number under which the chunk at `pos` is filed: its three
/// coordinates, as bit patterns of 32 bits each, side by side.
spec fn chunk_key(pos: ChunkIndex) -> u128 {
    (i32_bits(pos[0]) + 4294967296 * i32_bits(pos[1]) + 18446744073709551616 * i32_bits(
        pos[2],
    )) as u128
}

proof fn lemma_keys_differ(p: ChunkIndex, q: ChunkIndex)
    ensures
        chunk_key(p) == chunk_key(q) ==> p == q,
{
    if chunk_key(p) == chunk_key(q) {
        assert(i32_bits(p[2]) == i32_bits(q[2]));
        assert(i32_bits(p[1]) == i32_bits(q[1]));
        assert(i32_bits(p[0]) == i32_bits(q[0]));
        assert(p =~= q);
    }
}

fn key_of(pos: &ChunkIndex) -> (key: u128)
    ensures
        key == chunk_key(*pos),
{
    let x: u128 = i32_to_bits(pos[0]) as u128;
    let y: u128 = i32_to_bits(pos[1]) as u128;
    let z: u128 = i32_to_bits(pos[2]) as u128;
    x + 4294967296 * y + 18446744073709551616 * z
}

/// What is filed for one chunk: its position and what is kept for it.
#[derive(Debug)]
struct Slot<T> {
    pos: ChunkIndex,
    value: T,
}

spec fn by_position<T>(slots: Map<u128, Slot<T>>) -> Map<ChunkIndex, T> {
    Map::new(
        |p: ChunkIndex| slots.contains_key(chunk_key(p)),
        |p: ChunkIndex| slots[chunk_key(p)].value,
    )
}

spec fn filed_rightly<T>(slots: Map<u128, Slot<T>>) -> bool {
    forall|k: u128| #[trigger] slots.contains_key(k) ==> k == chunk_key(slots[k].pos)
}

proof fn lemma_insert<T>(slots: Map<u128, Slot<T>>, slot: Slot<T>)
    ensures
        by_position(slots.insert(chunk_key(slot.pos), slot)) == by_position(slots).insert(
            slot.pos,
            slot.value,
        ),
        filed_rightly(slots) ==> filed_rightly(slots.insert(chunk_key(slot.pos), slot)),
{
    assert forall|p: ChunkIndex| #[trigger] chunk_key(p) == chunk_key(slot.pos) implies p
        == slot.pos by {
        lemma_keys_differ(p, slot.pos);
    }
    assert(by_position(slots.insert(chunk_key(slot.pos), slot)) =~= by_position(slots).insert(
        slot.pos,
        slot.value,
    ));
}

proof fn lemma_remove<T>(slots: Map<u128, Slot<T>>, pos: ChunkIndex)
    ensures
        by_position(slots.remove(chunk_key(pos))) == by_position(slots).remove(pos),
        filed_rightly(slots) ==> filed_rightly(slots.remove(chunk_key(pos))),
{
    assert forall|p: ChunkIndex| #[trigger] chunk_key(p) == chunk_key(pos) implies p == pos by {
        lemma_keys_differ(p, pos);
    }
    assert(by_position(slots.remove(chunk_key(pos))) =~= by_position(slots).remove(pos));
}

proof fn lemma_count<T>(slots: Map<u128, Slot<T>>)
    requires
        filed_rightly(slots),
        slots.dom().finite(),
    ensures
        by_position(slots).dom().finite(),
        by_position(slots).dom().len() == slots.dom().len(),
{
    let keys = slots.dom();
    let positions = by_position(slots).dom();
    let place = |k: u128| slots[k].pos;
    assert forall|p: ChunkIndex| keys.map(place).contains(p) == positions.contains(p) by {
        if positions.contains(p) {
            let k = chunk_key(p);
            lemma_keys_differ(p, slots[k].pos);
            assert(keys.contains(k) && place(k) == p);
        }
    }
    assert(keys.map(place) =~= positions);
    assert(vstd::relations::injective_on(place, keys));
    vstd::set_lib::lemma_map_size(keys, positions, place);
}

/// A map from the positions of chunks to what is kept for each of them.
#[derive(Debug)]
pub struct ChunkMap<T> {
    slots: HashMap<u128, Slot<T>>,
}

impl<T> View for ChunkMap<T> {
    type V = Map<ChunkIndex, T>;

    closed spec fn view(&self) -> Map<ChunkIndex, T> {
        by_position(self.slots@)
    }
}

impl<T> ChunkMap<T> {
    /// Everything is filed under its own position.
    pub closed spec fn wf(&self) -> bool {
        filed_rightly(self.slots@)
    }

    /// The map that holds nothing.
    pub fn new() -> (r: Self)
        ensures
            r.wf(),
            r@ == Map::<ChunkIndex, T>::empty(),
    {
        let r = ChunkMap { slots: HashMap::new() };
        assert(r@ =~= Map::<ChunkIndex, T>::empty());
        r
    }

    /// How many chunks there is something for.
    pub fn len(&self) -> (r: usize)
        requires
            self.wf(),
        ensures
            r == self@.len(),
    {
        proof {
            lemma_count(self.slots@);
        }
        self.slots.len()
    }

    /// Whether there is something for the chunk at `pos`.
    pub fn contains(&self, pos: &ChunkIndex) -> (r: bool)
        ensures
            r == self@.contains_key(*pos),
    {
        self.slots.contains_key(&key_of(pos))
    }

    /// What is kept for the chunk at `pos`, if anything.
    pub fn get(&self, pos: &ChunkIndex) -> (r: Option<&T>)
        ensures
            r is Some <==> self@.contains_key(*pos),
            r matches Some(value) ==> *value == self@[*pos],
    {
        match self.slots.get(&key_of(pos)) {
            Some(slot) => Some(&slot.value),
            None => None,
        }
    }

    /// What is kept for the chunk at `pos`, if anything, to be changed in
    /// place.
    pub fn get_mut(&mut self, pos: &ChunkIndex) -> (r: Option<&mut T>)
        requires
            old(self).wf(),
        ensures
            final(self).wf(),
            r is Some <==> old(self)@.contains_key(*pos),
            r is None ==> final(self)@ == old(self)@,
            r matches Some(value) ==> *value == old(self)@[*pos] && final(self)@ == old(
                self,
            )@.insert(*pos, *final(value)),
    {
        let key = key_of(pos);
        proof {
            if self.slots@.contains_key(key) {
                lemma_keys_differ(self.slots@[key].pos, *pos);
            }
            assert forall|slot: Slot<T>|
                #![trigger self.slots@.insert(key, slot)]
                slot.pos == *pos implies by_position(self.slots@.insert(key, slot)) == by_position(
                self.slots@,
            ).insert(*pos, slot.value) && filed_rightly(self.slots@.insert(key, slot)) by {
                lemma_insert(self.slots@, slot);
            }
            assert(self.slots@.contains_key(key) ==> self.slots@.insert(key, self.slots@[key])
                =~= self.slots@);
            assert(!self.slots@.contains_key(key) ==> self.slots@.remove(key) =~= self.slots@);
        }
        match self.slots.entry(key) {
            Entry::Occupied(occupied) => Some(&mut occupied.into_mut().value),
            Entry::Vacant(_) => None,
        }
    }

    /// Keeps `value` for the chunk at `pos`, in place of what was kept for
    /// it before.
    pub fn insert(&mut self, pos: ChunkIndex, value: T)
        requires
            old(self).wf(),
        ensures
            final(self).wf(),
            final(self)@ == old(self)@.insert(pos, value),
    {
        let slot = Slot { pos, value };
        proof {
            lemma_insert(self.slots@, slot);
        }
        self.slots.insert(key_of(&pos), slot);
    }

    /// Drops what is kept for the chunk at `pos`.
    pub fn remove(&mut self, pos: &ChunkIndex)
        requires
            old(self).wf(),
        ensures
            final(self).wf(),
            final(self)@ == old(self)@.remove(*pos),
    {
        proof {
            lemma_remove(self.slots@, *pos);
        }
        self.slots.remove(&key_of(pos));
    }

    /// The positions of all chunks that there is something for, each once,
    /// in no particular order.
    pub fn positions(&self) -> (r: Vec<ChunkIndex>)
        requires
            self.wf(),
        ensures
            r@.no_duplicates(),
            r@.len() == self@.len(),
            forall|pos: ChunkIndex| r@.contains(pos) <==> self@.contains_key(pos),
    {
        let ghost slots = self.slots@;
        let ghost mut keys: Seq<u128> = Seq::empty();
        let mut out: Vec<ChunkIndex> = Vec::with_capacity(self.slots.len());
        for entry in it: self.slots.iter()
            invariant
                slots == self.slots@,
                filed_rightly(slots),
                it.seq().no_duplicates(),
                it.seq().len() == slots.dom().len(),
                forall|j: int|
                    0 <= j < it.seq().len() ==> slots.contains_key(*(#[trigger] it.seq()[j]).0)
                        && slots[*it.seq()[j].0] == *it.seq()[j].1,
                forall|k: u128| #[trigger]
                    slots.contains_key(k) ==> keys.contains(k) || exists|j: int|
                        it.index() <= j < it.seq().len() && *(#[trigger] it.seq()[j]).0 == k,
                keys.len() == it.index(),
                out@.len() == it.index(),
                forall|j: int| 0 <= j < it.index() ==> (#[trigger] keys[j]) == *it.seq()[j].0,
                forall|j: int|
                    0 <= j < it.index() ==> slots.contains_key(#[trigger] keys[j]) && out@[j]
                        == slots[keys[j]].pos,
        {
            let (key, slot) = entry;
            proof {
                let before = keys;
                assert(entry == it.seq()[it.index() as int]);
                keys = keys.push(*key);
                assert forall|k: u128| #[trigger] slots.contains_key(k) implies keys.contains(k)
                    || exists|j: int|
                    it.index() + 1 <= j < it.seq().len() && *(#[trigger] it.seq()[j]).0 == k by {
                    if before.contains(k) {
                        let a = choose|a: int| 0 <= a < before.len() && before[a] == k;
                        assert(keys[a] == k);
                    } else {
                        let j = choose|j: int|
                            it.index() <= j < it.seq().len() && *(#[trigger] it.seq()[j]).0 == k;
                        if j == it.index() {
                            assert(keys[before.len() as int] == k);
                        }
                    }
                }
            }
            out.push(slot.pos);
        }
        proof {
            lemma_count(slots);
            assert forall|a: int, b: int| 0 <= a < b < out@.len() implies out@[a] != out@[b] by {
                if out@[a] == out@[b] {
                    assert(keys[a] == keys[b]);
                }
            }
            assert forall|pos: ChunkIndex| out@.contains(pos) <==> self@.contains_key(pos) by {
                if out@.contains(pos) {
                    let j = choose|j: int| 0 <= j < out@.len() && out@[j] == pos;
                    assert(slots.contains_key(keys[j]));
                }
                if self@.contains_key(pos) {
                    let k = chunk_key(pos);
                    let j = choose|j: int| 0 <= j < keys.len() && keys[j] == k;
                    lemma_keys_differ(pos, slots[k].pos);
                    assert(out@[j] == pos);
                }
            }
        }
        out
    }
}

} // verus!

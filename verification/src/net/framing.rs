//! What all frames have in common: a two-byte id, then a payload whose
//! layout the id decides.

use std::sync::Arc;
use vstd::prelude::*;
use vstd::utf8::{decode_utf8, encode_utf8, valid_utf8};

use super::wire::{
    get_i32, get_u16, i32_from_le, i32_le, lemma_i32_round_trip, lemma_u16_round_trip, pos_le,
    put_u16, u16_from_le, u16_le,
};

verus! {

/// Id of a login request and, towards the client, of a refused login.
pub const ID_LOGIN: u16 = 0x0001;

/// Id of the frame that tells a client its uid.
pub const ID_LOGIN_SUCCESS: u16 = 0x0002;

/// Id of the frame that announces another player.
pub const ID_PLAYER_LOGIN: u16 = 0x0003;

/// Id of the frame that announces that a player left.
pub const ID_LOGOUT: u16 = 0x0004;

/// Id of a chunk request and of the chunk data that answers it.
pub const ID_CHUNK: u16 = 0x000A;

/// Id of a block update, in both directions.
pub const ID_BLOCK_UPDATE: u16 = 0x000B;

/// Id of a player position, in both directions.
pub const ID_PLAYER_POSITION: u16 = 0x000C;

/// A frame: the id, least significant byte first, then the payload.
pub open spec fn frame(id: u16, payload: Seq<u8>) -> Seq<u8> {
    u16_le(id) + payload
}

/// What follows the id of a frame on the wire.
#[derive(Debug, Clone, Copy, PartialEq, Eq)]
pub enum FrameShape {
    /// A payload of this many bytes.
    Fixed(usize),
    /// Two bytes of length, that many bytes, and then this many more; all
    /// of them together are the payload.
    Prefixed(usize),
    /// The id is not in order here.
    Unknown,
}

impl FrameShape {
    /// How many bytes of the payload are still to come when `read` is what
    /// has been read of it: for a length-prefixed payload first the two
    /// bytes of the length, then all the rest.
    pub open spec fn wanted(self, read: Seq<u8>) -> int {
        match self {
            FrameShape::Fixed(n) => n - read.len(),
            FrameShape::Prefixed(tail) => if read.len() < 2 {
                2 - read.len()
            } else {
                2 + u16_from_le(read) + tail - read.len()
            },
            FrameShape::Unknown => 0,
        }
    }

    /// How many bytes to read next when `read` is what has been read of
    /// the payload so far: none once the payload is whole, and never more
    /// than a length can say.
    pub fn remaining(&self, read: &[u8]) -> (r: usize)
        ensures
            r == if self.wanted(read@) <= 0 {
                0
            } else if self.wanted(read@) > usize::MAX {
                usize::MAX as int
            } else {
                self.wanted(read@)
            },
            has_shape(*self, read@) ==> r == 0,
    {
        let have: u128 = read.len() as u128;
        let want: u128 = match *self {
            FrameShape::Fixed(n) => n as u128,
            FrameShape::Prefixed(tail) => if read.len() < 2 {
                2
            } else {
                assert(read@.skip(0) =~= read@);
                2 + get_u16(read, 0) as u128 + tail as u128
            },
            FrameShape::Unknown => 0,
        };
        if want <= have {
            0
        } else if want - have > usize::MAX as u128 {
            usize::MAX
        } else {
            (want - have) as usize
        }
    }
}

/// Whether `payload` is as long as `shape` asks.
pub open spec fn has_shape(shape: FrameShape, payload: Seq<u8>) -> bool {
    match shape {
        FrameShape::Fixed(n) => payload.len() == n,
        FrameShape::Prefixed(tail) => is_prefixed(payload, tail as int),
        FrameShape::Unknown => false,
    }
}

/// Hands finished bytes over as a shared, immutable buffer. Wraps
/// `Arc::<[u8]>::from(Vec<u8>)`, which moves the items of the vector into a
/// reference-counted slice: same bytes, same order.
#[verifier::external_body]
pub(crate) fn share(bytes: Vec<u8>) -> (r: Arc<[u8]>)
    ensures
        r@ == bytes@,
{
    Arc::from(bytes)
}

/// Hands finished bytes over as an owned slice. Wraps
/// `Vec::into_boxed_slice`, which keeps the items and their order.
#[verifier::external_body]
pub(crate) fn boxed(bytes: Vec<u8>) -> (r: Box<[u8]>)
    ensures
        r@ == bytes@,
{
    bytes.into_boxed_slice()
}

/// Reads bytes as text. Wraps `String::from_utf8`, which succeeds exactly on
/// well-formed UTF-8 and then holds the characters that the bytes encode.
#[verifier::external_body]
pub(crate) fn text_from_utf8(bytes: Vec<u8>) -> (r: Option<String>)
    ensures
        r is Some <==> valid_utf8(bytes@),
        r matches Some(s) ==> s@ == decode_utf8(bytes@),
{
    match String::from_utf8(bytes) {
        Ok(text) => Some(text),
        Err(_) => None,
    }
}

/// Appends `bytes` to `out`.
pub(crate) fn put_bytes(out: &mut Vec<u8>, bytes: &[u8])
    ensures
        final(out)@ == old(out)@ + bytes@,
{
    out.extend_from_slice(bytes);
    assert(out@ =~= old(out)@ + bytes@);
}

/// Starts a frame with the given id.
pub(crate) fn begin(id: u16, capacity: usize) -> (out: Vec<u8>)
    ensures
        out@ == u16_le(id),
{
    let mut out: Vec<u8> = Vec::with_capacity(capacity);
    put_u16(&mut out, id);
    assert(out@ =~= u16_le(id));
    out
}

/// A length-prefixed run of bytes: the length in two bytes, then the bytes.
pub open spec fn prefixed(bytes: Seq<u8>) -> Seq<u8> {
    u16_le(bytes.len() as u16) + bytes
}

/// Whether `s` starts with a two-byte length and holds exactly that many
/// bytes, and then `tail` more.
pub open spec fn is_prefixed(s: Seq<u8>, tail: int) -> bool {
    s.len() >= 2 && s.len() == 2 + u16_from_le(s) + tail
}

/// The bytes that follow the length of a length-prefixed run.
pub open spec fn prefixed_body(s: Seq<u8>) -> Seq<u8> {
    s.subrange(2, 2 + u16_from_le(s))
}

/// Splits a length-prefixed run off the front of `s`: the bytes of the run
/// and the offset behind it, provided exactly `tail` bytes follow.
pub(crate) fn take_prefixed(s: &[u8], tail: usize) -> (r: Option<(Vec<u8>, usize)>)
    ensures
        r is Some <==> is_prefixed(s@, tail as int),
        r matches Some((body, end)) ==> body@ == prefixed_body(s@) && end == 2 + u16_from_le(s@),
{
    if s.len() < 2 {
        return None;
    }
    assert(s@.skip(0) =~= s@);
    let len: usize = get_u16(s, 0) as usize;
    if s.len() - 2 < len || s.len() - 2 - len != tail {
        return None;
    }
    let body = vstd::slice::slice_to_vec(vstd::slice::slice_subrange(s, 2, 2 + len));
    Some((body, 2 + len))
}

/// Whether a name is short enough for its length to fit a frame.
pub open spec fn name_fits(name: Seq<char>) -> bool {
    encode_utf8(name).len() <= u16::MAX
}

/// The position that a payload starts with.
pub open spec fn parse_pos(s: Seq<u8>) -> [i32; 3] {
    [i32_from_le(s), i32_from_le(s.skip(4)), i32_from_le(s.skip(8))]
}

/// Reads the position that `s` starts with.
pub fn get_pos(s: &[u8]) -> (r: [i32; 3])
    requires
        s@.len() >= 12,
    ensures
        r == parse_pos(s@),
{
    assert(s@.skip(0) =~= s@);
    [get_i32(s, 0), get_i32(s, 4), get_i32(s, 8)]
}

/// A frame starts with its id and goes on with its payload.
pub proof fn lemma_frame_round_trip(id: u16, payload: Seq<u8>)
    ensures
        frame(id, payload).len() == 2 + payload.len(),
        u16_from_le(frame(id, payload)) == id,
        frame(id, payload).skip(2) == payload,
{
    lemma_u16_round_trip(id, payload);
    assert(frame(id, payload).skip(2) =~= payload);
}

/// A length-prefixed run that is short enough is recognised again, with
/// `tail` bytes behind it, and gives its bytes back.
pub proof fn lemma_prefixed_round_trip(bytes: Seq<u8>, rest: Seq<u8>)
    requires
        bytes.len() <= u16::MAX,
    ensures
        is_prefixed(prefixed(bytes) + rest, rest.len() as int),
        u16_from_le(prefixed(bytes) + rest) == bytes.len(),
        prefixed_body(prefixed(bytes) + rest) == bytes,
        (prefixed(bytes) + rest).skip(2 + bytes.len() as int) == rest,
{
    let s = prefixed(bytes) + rest;
    lemma_u16_round_trip(bytes.len() as u16, bytes + rest);
    assert(s =~= u16_le(bytes.len() as u16) + (bytes + rest));
    assert(prefixed_body(s) =~= bytes);
    assert(s.skip(2 + bytes.len() as int) =~= rest);
}

/// Reading back what `pos_le` wrote gives the position again, whatever
/// follows it.
pub proof fn lemma_pos_round_trip(pos: [i32; 3], rest: Seq<u8>)
    ensures
        pos_le(pos).len() == 12,
        i32_from_le(pos_le(pos) + rest) == pos[0],
        i32_from_le((pos_le(pos) + rest).skip(4)) == pos[1],
        i32_from_le((pos_le(pos) + rest).skip(8)) == pos[2],
{
    let s = pos_le(pos) + rest;
    lemma_i32_round_trip(pos[0], i32_le(pos[1]) + i32_le(pos[2]) + rest);
    lemma_i32_round_trip(pos[1], i32_le(pos[2]) + rest);
    lemma_i32_round_trip(pos[2], rest);
    assert(s =~= i32_le(pos[0]) + (i32_le(pos[1]) + i32_le(pos[2]) + rest));
    assert(s.skip(4) =~= i32_le(pos[1]) + (i32_le(pos[2]) + rest));
    assert(s.skip(8) =~= i32_le(pos[2]) + rest);
}

} // verus!

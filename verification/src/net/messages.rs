//! The frames that carry a single value: those of the login, the request
//! for a chunk and the chunk itself.

use std::sync::Arc;
use vstd::prelude::*;
use vstd::utf8::{decode_utf8, encode_utf8, valid_utf8};

use super::framing::{
    begin, boxed, frame, get_pos, is_prefixed, lemma_pos_round_trip, lemma_prefixed_round_trip,
    name_fits, parse_pos, prefixed, prefixed_body, put_bytes, share, take_prefixed, text_from_utf8,
    ID_CHUNK, ID_LOGIN, ID_LOGIN_SUCCESS,
};
use super::wire::{
    get_u64, lemma_u64_round_trip, pos_le, put_pos, put_u16, put_u64, u64_from_le, u64_le,
};

verus! {

/// The frame with which a client asks to log in under `name`.
pub fn login_package(name: &str) -> (r: Box<[u8]>)
    requires
        name_fits(name@),
    ensures
        r@ == frame(ID_LOGIN, prefixed(encode_utf8(name@))),
{
    let bytes = name.as_bytes();
    let mut out = begin(ID_LOGIN, 4);
    put_u16(&mut out, bytes.len() as u16);
    put_bytes(&mut out, bytes);
    assert(out@ =~= frame(ID_LOGIN, prefixed(encode_utf8(name@))));
    boxed(out)
}

/// Reads the payload of a login request: the name, provided the length
/// that it starts with is the number of bytes that follow and these are
/// well-formed UTF-8.
pub fn read_login(payload: &[u8]) -> (r: Option<String>)
    ensures
        r is Some <==> is_prefixed(payload@, 0) && valid_utf8(prefixed_body(payload@)),
        r matches Some(name) ==> name@ == decode_utf8(prefixed_body(payload@)),
{
    match take_prefixed(payload, 0) {
        Some((body, _)) => text_from_utf8(body),
        None => None,
    }
}

/// A login request whose name fits survives being written and read back.
pub proof fn lemma_login_round_trip(name: Seq<char>)
    requires
        name_fits(name),
    ensures
        is_prefixed(prefixed(encode_utf8(name)), 0),
        valid_utf8(prefixed_body(prefixed(encode_utf8(name)))),
        decode_utf8(prefixed_body(prefixed(encode_utf8(name)))) == name,
{
    lemma_prefixed_round_trip(encode_utf8(name), Seq::empty());
    assert(prefixed(encode_utf8(name)) + Seq::empty() =~= prefixed(encode_utf8(name)));
    vstd::utf8::encode_utf8_valid_utf8(name);
    vstd::utf8::encode_utf8_decode_utf8(name);
}

/// The frame that refuses a login: the reason, which may be empty, behind
/// its length. A reason too long for its length to fit is left out.
pub fn login_failed_package(reason: &[u8]) -> (r: Arc<[u8]>)
    ensures
        r@ == frame(
            ID_LOGIN,
            prefixed(
                if reason@.len() <= u16::MAX {
                    reason@
                } else {
                    Seq::empty()
                },
            ),
        ),
{
    let mut out = begin(ID_LOGIN, 4);
    if reason.len() <= 65535 {
        put_u16(&mut out, reason.len() as u16);
        put_bytes(&mut out, reason);
        assert(out@ =~= frame(ID_LOGIN, prefixed(reason@)));
    } else {
        put_u16(&mut out, 0);
        assert(out@ =~= frame(ID_LOGIN, prefixed(Seq::empty())));
    }
    share(out)
}

/// Reads the payload of a refused login: the reason, provided the length
/// that it starts with is the number of bytes that follow.
pub fn read_login_failed(payload: &[u8]) -> (r: Option<Vec<u8>>)
    ensures
        r is Some <==> is_prefixed(payload@, 0),
        r matches Some(reason) ==> reason@ == prefixed_body(payload@),
{
    match take_prefixed(payload, 0) {
        Some((body, _)) => Some(body),
        None => None,
    }
}

/// A refused login whose reason fits survives being written and read back.
pub proof fn lemma_login_failed_round_trip(reason: Seq<u8>)
    requires
        reason.len() <= u16::MAX,
    ensures
        is_prefixed(prefixed(reason), 0),
        prefixed_body(prefixed(reason)) == reason,
{
    lemma_prefixed_round_trip(reason, Seq::empty());
    assert(prefixed(reason) + Seq::empty() =~= prefixed(reason));
}

/// The frame that tells a client the uid it plays under.
pub fn login_success_package(uid: u64) -> (r: Arc<[u8]>)
    ensures
        r@ == frame(ID_LOGIN_SUCCESS, u64_le(uid)),
{
    let mut out = begin(ID_LOGIN_SUCCESS, 10);
    put_u64(&mut out, uid);
    share(out)
}

/// Reads the payload of an accepted login: the uid, provided there are
/// eight bytes.
pub fn read_login_success(payload: &[u8]) -> (r: Option<u64>)
    ensures
        r == if payload@.len() == 8 {
            Some(u64_from_le(payload@))
        } else {
            None
        },
{
    if payload.len() != 8 {
        return None;
    }
    assert(payload@.skip(0) =~= payload@);
    Some(get_u64(payload, 0))
}

/// An accepted login survives being written and read back.
pub proof fn lemma_login_success_round_trip(uid: u64)
    ensures
        u64_le(uid).len() == 8,
        u64_from_le(u64_le(uid)) == uid,
{
    lemma_u64_round_trip(uid, Seq::empty());
    assert(u64_le(uid) + Seq::empty() =~= u64_le(uid));
}

/// The frame with which a client asks for the chunk at `pos`.
pub fn request_chunk_package(pos: [i32; 3]) -> (r: Box<[u8]>)
    ensures
        r@ == frame(ID_CHUNK, pos_le(pos)),
{
    let mut out = begin(ID_CHUNK, 14);
    put_pos(&mut out, &pos);
    boxed(out)
}

/// Reads the payload of a chunk request: the position, provided there are
/// twelve bytes.
pub fn read_request_chunk(payload: &[u8]) -> (r: Option<[i32; 3]>)
    ensures
        r == if payload@.len() == 12 {
            Some(parse_pos(payload@))
        } else {
            None
        },
{
    if payload.len() != 12 {
        return None;
    }
    Some(get_pos(payload))
}

/// A chunk request survives being written and read back.
pub proof fn lemma_request_chunk_round_trip(pos: [i32; 3])
    ensures
        pos_le(pos).len() == 12,
        parse_pos(pos_le(pos)) == pos,
{
    lemma_pos_round_trip(pos, Seq::empty());
    assert(pos_le(pos) + Seq::empty() =~= pos_le(pos));
    assert(parse_pos(pos_le(pos)) =~= pos);
}

/// Length of the payload of a frame that carries a chunk.
pub const CHUNK_PAYLOAD_SIZE: usize = 4108;

/// Reads the payload of a frame that carries a chunk: the position and the
/// cells, provided there are 4108 bytes.
pub fn read_chunk_data(payload: &[u8]) -> (r: Option<([i32; 3], Vec<u8>)>)
    ensures
        r is Some <==> payload@.len() == CHUNK_PAYLOAD_SIZE,
        r matches Some((pos, cells)) ==> pos == parse_pos(payload@) && cells@
            == payload@.subrange(12, CHUNK_PAYLOAD_SIZE as int),
{
    if payload.len() != 4108 {
        return None;
    }
    let cells = vstd::slice::slice_to_vec(vstd::slice::slice_subrange(payload, 12, 4108));
    Some((get_pos(payload), cells))
}

/// A chunk survives being written and read back.
pub proof fn lemma_chunk_data_round_trip(pos: [i32; 3], cells: Seq<u8>)
    requires
        cells.len() == 4096,
    ensures
        (pos_le(pos) + cells).len() == CHUNK_PAYLOAD_SIZE,
        parse_pos(pos_le(pos) + cells) == pos,
        (pos_le(pos) + cells).subrange(12, CHUNK_PAYLOAD_SIZE as int) == cells,
{
    lemma_pos_round_trip(pos, cells);
    assert(parse_pos(pos_le(pos) + cells) =~= pos);
    assert((pos_le(pos) + cells).subrange(12, CHUNK_PAYLOAD_SIZE as int) =~= cells);
}

} // verus!

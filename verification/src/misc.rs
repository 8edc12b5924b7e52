//! Helpers that belong nowhere else.

use vstd::prelude::*;

use crate::net::framing::{is_prefixed, prefixed_body, FrameShape, ID_LOGIN, ID_LOGIN_SUCCESS};
use crate::net::messages::{read_login_failed, read_login_success};
use crate::net::wire::u64_from_le;

verus! {

/// The index of the first `None` in `data`, or `None` if every place is
/// taken.
pub fn first_none<T>(data: &[Option<T>]) -> (r: Option<usize>)
    ensures
        match r {
            Some(i) => i < data@.len() && data@[i as int] is None && forall|j: int|
                0 <= j < i ==> (#[trigger] data@[j]) is Some,
            None => forall|j: int| 0 <= j < data@.len() ==> (#[trigger] data@[j]) is Some,
        },
{
    let mut i: usize = 0;
    while i < data.len()
        invariant
            i <= data@.len(),
            forall|j: int| 0 <= j < i ==> (#[trigger] data@[j]) is Some,
        decreases data@.len() - i,
    {
        if data[i].is_none() {
            return Some(i);
        }
        i = i + 1;
    }
    None
}

/// How the server answers a login.
#[derive(Debug, PartialEq, Eq)]
pub enum LoginAnswer {
    /// Refused, for this reason, which may be empty.
    Failed(Vec<u8>),
    /// Accepted: the client plays under this uid.
    Success(u64),
}

/// What follows the id `id` in the answer to a login.
pub open spec fn answer_shape(id: u16) -> FrameShape {
    if id == ID_LOGIN {
        FrameShape::Prefixed(0)
    } else if id == ID_LOGIN_SUCCESS {
        FrameShape::Fixed(8)
    } else {
        FrameShape::Unknown
    }
}

/// What the client has to read behind the id of the answer to its login.
pub fn login_answer_shape(id: u16) -> (r: FrameShape)
    ensures
        r == answer_shape(id),
{
    if id == ID_LOGIN {
        FrameShape::Prefixed(0)
    } else if id == ID_LOGIN_SUCCESS {
        FrameShape::Fixed(8)
    } else {
        FrameShape::Unknown
    }
}

/// Reads the answer of the server to a login from the id and the payload
/// of the frame; `None` for a frame that is no such answer.
pub fn login(id: u16, payload: &[u8]) -> (r: Option<LoginAnswer>)
    ensures
        match r {
            Some(LoginAnswer::Failed(reason)) => id == ID_LOGIN && is_prefixed(payload@, 0)
                && reason@ == prefixed_body(payload@),
            Some(LoginAnswer::Success(uid)) => id == ID_LOGIN_SUCCESS && payload@.len() == 8
                && uid == u64_from_le(payload@),
            None => !(id == ID_LOGIN && is_prefixed(payload@, 0)) && !(id == ID_LOGIN_SUCCESS
                && payload@.len() == 8),
        },
{
    if id == ID_LOGIN {
        match read_login_failed(payload) {
            Some(reason) => Some(LoginAnswer::Failed(reason)),
            None => None,
        }
    } else if id == ID_LOGIN_SUCCESS {
        match read_login_success(payload) {
            Some(uid) => Some(LoginAnswer::Success(uid)),
            None => None,
        }
    } else {
        None
    }
}

} // verus!

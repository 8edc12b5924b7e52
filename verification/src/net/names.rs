//! Which names a player may log in under.

use vstd::prelude::*;

verus! {

/// Whether `c` is alphanumeric in the sense of Unicode: what
/// `char::is_alphanumeric` answers for `c`.
pub uninterp spec fn is_alphanumeric_char(c: char) -> bool;

/// `char::is_alphanumeric` decides by the character alone; its answer is
/// what `is_alphanumeric_char` names.
pub assume_specification[ char::is_alphanumeric ](c: char) -> (b: bool)
    ensures
        b == is_alphanumeric_char(c),
;

/// Whether every character of `name` is alphanumeric. The empty name is.
pub open spec fn all_alphanumeric(name: Seq<char>) -> bool {
    forall|i: int| 0 <= i < name.len() ==> is_alphanumeric_char(#[trigger] name[i])
}

/// Whether every character of `name` is alphanumeric.
pub fn is_alphanumeric_name(name: &str) -> (b: bool)
    ensures
        b == all_alphanumeric(name@),
{
    let mut all = true;
    for c in it: name.chars()
        invariant
            it.seq() == name@,
            all == (forall|i: int|
                0 <= i < it.index() ==> is_alphanumeric_char(#[trigger] name@[i])),
    {
        if !c.is_alphanumeric() {
            all = false;
        }
    }
    all
}

} // verus!

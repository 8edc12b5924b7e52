//! Where a text stands relative to its position.

use vstd::prelude::*;

verus! {

/// Which edge of a text stands at its position, from side to side.
#[derive(Debug, Clone, Copy, PartialEq, Eq)]
pub enum HorizontalTextAlignment {
    Left,
    Center,
    Right,
}

/// Which edge of a text stands at its position, from top to bottom.
#[derive(Debug, Clone, Copy, PartialEq, Eq)]
pub enum VerticalTextAlignment {
    Top,
    Middle,
    Bottom,
}

} // verus!

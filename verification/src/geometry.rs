use vstd::prelude::*;

verus! {

/// The size of a rectangular screen region, in cells.
#[derive(Clone, Copy, Debug, PartialEq, Eq, Structural)]
pub struct Size {
    pub height: usize,
    pub width: usize,
}

/// A cell position on the screen, counted from the top-left corner.
#[derive(Clone, Copy, Debug, PartialEq, Eq, Structural)]
pub struct Position {
    pub row: usize,
    pub col: usize,
}

impl Size {
    /// The empty region.
    pub fn zero() -> (s: Size)
        ensures
            s.height == 0,
            s.width == 0,
    {
        Size { height: 0, width: 0 }
    }
}

} // verus!

use vstd::prelude::*;

verus! {

/// One square of the grid; it is either free or claimed by one player.
#[derive(Clone, Copy, Debug)]
pub struct Cell {
    pub claimed_by: Option<usize>,
}

impl Cell {
    /// A free cell.
    pub fn new() -> (c: Cell)
        ensures
            c.claimed_by is None,
    {
        Cell { claimed_by: None }
    }

    /// Whether some player holds the cell.
    pub fn claimed(&self) -> (b: bool)
        ensures
            b == (self.claimed_by is Some),
    {
        self.claimed_by.is_some()
    }
}

} // verus!

use vstd::prelude::*;

verus! {

/// The four ways to move: along the width axis or the height axis, towards
/// larger or smaller coordinates.
#[derive(Clone, Copy, Debug, PartialEq, Eq, Structural)]
pub enum Direction {
    WPos,
    WNeg,
    HPos,
    HNeg,
}

impl Direction {
    /// The place of a direction in the order in which the directions are tried.
    pub open spec fn rank(self) -> int {
        match self {
            Direction::WPos => 0,
            Direction::WNeg => 1,
            Direction::HPos => 2,
            Direction::HNeg => 3,
        }
    }

    /// The name that the wire protocol gives to a move in this direction.
    pub open spec fn spec_command_name(self) -> Seq<char> {
        match self {
            Direction::WPos => "right"@,
            Direction::WNeg => "left"@,
            Direction::HPos => "up"@,
            Direction::HNeg => "down"@,
        }
    }

    /// The name that the wire protocol gives to a move in this direction.
    pub fn command_name(self) -> (name: &'static str)
        ensures
            name@ == self.spec_command_name(),
    {
        match self {
            Direction::WPos => "right",
            Direction::WNeg => "left",
            Direction::HPos => "up",
            Direction::HNeg => "down",
        }
    }
}

} // verus!

use std::ops::Not;

use vstd::prelude::*;

verus! {

/// One of the two players' marks.
#[derive(Clone, Copy, Debug, PartialEq, Eq, Structural)]
pub enum Sign {
    X,
    O,
}

/// The mark of the other player.
pub open spec fn opposite(s: Sign) -> Sign {
    match s {
        Sign::X => Sign::O,
        Sign::O => Sign::X,
    }
}

impl Sign {
    /// The mark of the other player.
    pub fn toggle(self) -> (r: Sign)
        ensures
            r == opposite(self),
            r != self,
    {
        match self {
            Sign::X => Sign::O,
            Sign::O => Sign::X,
        }
    }

    /// The one-letter text shown for this mark.
    pub fn as_str(self) -> (r: &'static str)
        ensures
            self == Sign::X ==> r@ == "X"@,
            self == Sign::O ==> r@ == "O"@,
    {
        match self {
            Sign::X => "X",
            Sign::O => "O",
        }
    }
}

impl std::ops::Not for Sign {
    type Output = Sign;

    /// The mark of the other player.
    fn not(self) -> (r: Sign)
        ensures
            r == opposite(self),
    {
        self.toggle()
    }
}

impl vstd::std_specs::ops::NotSpecImpl for Sign {
    open spec fn obeys_not_spec() -> bool {
        true
    }

    open spec fn not_req(self) -> bool {
        true
    }

    open spec fn not_spec(self) -> Sign {
        opposite(self)
    }
}

/// Hands the turn to the other player.
pub fn switch_player(current_player: &mut Sign)
    ensures
        *final(current_player) == opposite(*old(current_player)),
{
    *current_player = current_player.not();
}

/// One square of the board: empty, or holding exactly one mark.
#[derive(Clone, Copy, Debug, PartialEq, Eq, Structural)]
pub struct Cell(pub Option<Sign>);

impl Cell {
    /// Whether no mark stands in this cell.
    pub fn is_empty(&self) -> (r: bool)
        ensures
            r == (self.0 is None),
    {
        self.0.is_none()
    }
}

} // verus!

use vstd::prelude::*;

verus! {

/// The state of one cell of the automaton.
///
/// Beyond the classic dead/alive pair there are two transitional states, so
/// a renderer can show a cell fading in (`Growing`) or out (`Dying`) instead
/// of snapping between dead and alive. Only `Alive` counts when live
/// neighbors are tallied; transitional cells contribute nothing.
#[derive(Clone, Copy, Debug, PartialEq, Eq, Structural)]
pub enum Cell {
    /// A settled dead cell.
    Dead,
    /// A cell in transition from dead to alive.
    Growing,
    /// A cell in transition from alive to dead.
    Dying,
    /// A settled live cell.
    Alive,
}

impl Cell {
    /// The single-byte encoding a renderer consumes:
    /// 0 dead, 1 growing, 6 dying, 7 alive.
    pub open spec fn spec_value(self) -> u8 {
        match self {
            Cell::Dead => 0,
            Cell::Growing => 1,
            Cell::Dying => 6,
            Cell::Alive => 7,
        }
    }

    /// Encode the state as its byte value.
    pub fn value(self) -> (v: u8)
        ensures
            v == self.spec_value(),
    {
        match self {
            Cell::Dead => 0,
            Cell::Growing => 1,
            Cell::Dying => 6,
            Cell::Alive => 7,
        }
    }

    /// Whether the state is settled: dead or alive, not mid-transition.
    pub open spec fn is_settled(self) -> bool {
        self == Cell::Dead || self == Cell::Alive
    }
}

} // verus!

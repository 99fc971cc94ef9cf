//! The state of one grid position and the rule that decides its successor.

use vstd::prelude::*;

verus! {

/// The state of one grid position.
#[derive(Clone, Copy, Debug, PartialEq, Eq, Structural)]
pub enum Cell {
    Dead,
    Alive,
}

impl Cell {
    /// What this cell adds to a neighbour's live count: 1 if alive, else 0.
    pub open spec fn count(self) -> nat {
        match self {
            Cell::Alive => 1,
            Cell::Dead => 0,
        }
    }

    /// The successor of a cell that has `live_neighbors` living neighbours:
    /// alive on exactly three, unchanged-if-alive on exactly two, dead otherwise.
    pub open spec fn successor(self, live_neighbors: nat) -> Cell {
        if live_neighbors == 3 {
            Cell::Alive
        } else if self == Cell::Alive && live_neighbors == 2 {
            Cell::Alive
        } else {
            Cell::Dead
        }
    }

    /// The four bytes that display this cell: opaque black for a living cell,
    /// opaque white for a dead one.
    pub open spec fn pixel(self) -> Seq<u8> {
        match self {
            Cell::Alive => seq![0u8, 0u8, 0u8, 0xffu8],
            Cell::Dead => seq![0xffu8, 0xffu8, 0xffu8, 0xffu8],
        }
    }

    /// What this cell adds to a neighbour's live count.
    pub fn live_count(self) -> (count: u8)
        ensures
            count == self.count(),
            count <= 1,
    {
        match self {
            Cell::Alive => 1,
            Cell::Dead => 0,
        }
    }

    /// The pixel that displays this cell.
    pub fn pixel_bytes(self) -> (bytes: [u8; 4])
        ensures
            bytes@ == self.pixel(),
    {
        let bytes: [u8; 4] = match self {
            Cell::Alive => [0, 0, 0, 0xff],
            Cell::Dead => [0xff, 0xff, 0xff, 0xff],
        };
        bytes
    }
}

} // verus!

//! A single automaton cell and the transition rule.
use vstd::prelude::*;

verus! {

/// The B3/S23 rule: a live cell survives with two or three live neighbours,
/// a dead cell is born with exactly three, and every other cell is dead in
/// the next generation.
pub open spec fn conway_rule(alive: bool, live_neighbours: nat) -> bool {
    if alive {
        live_neighbours == 2 || live_neighbours == 3
    } else {
        live_neighbours == 3
    }
}

/// One cell of the board.  It carries its home coordinates and whether it is
/// currently alive.
pub struct Cell {
    pub x: usize,
    pub y: usize,
    pub state: bool,
}

impl Cell {
    pub fn new(alive: bool, x: usize, y: usize) -> (c: Self)
        ensures
            c == (Cell { x, y, state: alive }),
    {
        Self { state: alive, x, y }
    }

    pub fn is_alive(&self) -> (b: bool)
        ensures
            b == self.state,
    {
        self.state
    }

    pub fn set_state(&mut self, state: bool)
        ensures
            *final(self) == (Cell { x: old(self).x, y: old(self).y, state }),
    {
        self.state = state
    }

    /// Liveness of this cell in the next generation, given how many of its
    /// neighbours are alive now.
    pub fn next_state(&self, nb_neighbours: u8) -> (b: bool)
        ensures
            b == conway_rule(self.state, nb_neighbours as nat),
    {
        if self.is_alive() {
            nb_neighbours == 2 || nb_neighbours == 3
        } else {
            nb_neighbours == 3
        }
    }
}

impl Clone for Cell {
    fn clone(&self) -> (c: Self)
        ensures
            c == *self,
    {
        Self { state: self.state, x: self.x, y: self.y }
    }
}

impl Default for Cell {
    /// A dead cell at the origin.
    fn default() -> (c: Self)
        ensures
            c == (Cell { x: 0, y: 0, state: false }),
    {
        Self { state: false, x: 0, y: 0 }
    }
}

} // verus!

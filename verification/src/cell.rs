//! The binary cell state and the Conway transition rule for a single cell.

use vstd::prelude::*;

verus! {

/// A cell is either dead or alive; equality is value equality.
#[derive(Clone, Copy, Debug, PartialEq, Eq, Structural)]
pub enum Cell {
    Dead,
    Alive,
}

/// The opposite state of `c`.
pub open spec fn flipped(c: Cell) -> Cell {
    match c {
        Cell::Dead => Cell::Alive,
        Cell::Alive => Cell::Dead,
    }
}

/// Flips `Alive` to `Dead` and back.
pub fn flip(c: Cell) -> (r: Cell)
    ensures
        r == flipped(c),
{
    match c {
        Cell::Dead => Cell::Alive,
        Cell::Alive => Cell::Dead,
    }
}

/// The Conway rule for one cell: an alive cell survives with 2 or 3 live
/// neighbors and dies otherwise; a dead cell is born with exactly 3.
pub open spec fn next_cell_state(c: Cell, live_neighbors: int) -> Cell {
    match c {
        Cell::Alive => if live_neighbors < 2 || live_neighbors > 3 {
            Cell::Dead
        } else {
            Cell::Alive
        },
        Cell::Dead => if live_neighbors == 3 {
            Cell::Alive
        } else {
            Cell::Dead
        },
    }
}

/// Applies the Conway rule to one cell given its live neighbor count.
pub fn next_cell(c: Cell, live_neighbors: u8) -> (r: Cell)
    ensures
        r == next_cell_state(c, live_neighbors as int),
{
    match c {
        Cell::Alive => if live_neighbors < 2 || live_neighbors > 3 {
            Cell::Dead
        } else {
            Cell::Alive
        },
        Cell::Dead => if live_neighbors == 3 {
            Cell::Alive
        } else {
            Cell::Dead
        },
    }
}

/// The glyph a cell renders as: a white square for `Dead`, a black square
/// for `Alive`.
pub open spec fn glyph(c: Cell) -> char {
    match c {
        Cell::Dead => '\u{25fb}',
        Cell::Alive => '\u{25fc}',
    }
}

/// Flipping a cell twice restores it.
pub proof fn lemma_flip_involutive(c: Cell)
    ensures
        flipped(flipped(c)) == c,
{
}

} // verus!

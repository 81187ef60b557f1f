//! Random cell selection for the creator's scramble.
//!
//! Only the creator draws randomness; the joiner replays what it is told.
//! The draw itself is delegated to the random-number crate; everything
//! derived from the draw is verified: whatever value comes back, the chosen
//! cell is inside the board and shares an edge with the hole.

use vstd::prelude::*;

verus! {

/// True when the two cells share an edge.
pub open spec fn cells_adjacent(a: (usize, usize), b: (usize, usize)) -> bool {
    ||| (a.0 == b.0 && (a.1 == b.1 + 1 || b.1 == a.1 + 1))
    ||| (a.1 == b.1 && (a.0 == b.0 + 1 || b.0 == a.0 + 1))
}

/// Relies on rand::Rng::gen_range over rand::thread_rng: a value drawn from
/// `0..n`. The call panics on an empty range, which the bound excludes.
#[verifier::external_body]
pub(crate) fn rand_below(n: usize) -> (r: usize)
    requires
        1 <= n,
    ensures
        r < n,
{
    rand::Rng::gen_range(&mut rand::thread_rng(), 0..n)
}

/// The creator's source of scramble randomness.
pub struct TileRandom {}

impl TileRandom {
    /// Picks a random cell adjacent to `blank_cell` on a
    /// `row_cnt_tiles` x `col_cnt_tiles` board: corners draw between their
    /// two neighbours, edge cells between three, interior cells between
    /// four.
    pub fn random_adjacent_tile(
        blank_cell: (usize, usize),
        col_cnt_tiles: usize,
        row_cnt_tiles: usize,
    ) -> (t: (usize, usize))
        requires
            2 <= row_cnt_tiles,
            2 <= col_cnt_tiles,
            blank_cell.0 < row_cnt_tiles,
            blank_cell.1 < col_cnt_tiles,
        ensures
            cells_adjacent(t, blank_cell),
            t.0 < row_cnt_tiles,
            t.1 < col_cnt_tiles,
    {
        let (c1, c2) = blank_cell;
        // Directions: 0 moves down, 1 right, 2 left, 3 up.
        let direction: usize = if c1 == 0 && c2 == 0 {
            // Top-left corner: down or right.
            rand_below(2)
        } else if c1 == 0 && c2 == col_cnt_tiles - 1 {
            // Top-right corner: down or left.
            let r = rand_below(2);
            if r == 1 {
                2
            } else {
                r
            }
        } else if c1 == row_cnt_tiles - 1 && c2 == col_cnt_tiles - 1 {
            // Bottom-right corner: up or left.
            let r = rand_below(2);
            if r == 0 {
                3
            } else {
                2
            }
        } else if c1 == row_cnt_tiles - 1 && c2 == 0 {
            // Bottom-left corner: up or right.
            let r = rand_below(2);
            if r == 0 {
                3
            } else {
                r
            }
        } else if c2 == 0 {
            // Left edge: down, right or up.
            let r = rand_below(3);
            if r == 2 {
                3
            } else {
                r
            }
        } else if c1 == 0 {
            // Top edge: down, right or left.
            rand_below(3)
        } else if c2 == col_cnt_tiles - 1 {
            // Right edge: down, left or up.
            let r = rand_below(3);
            if r == 1 {
                3
            } else {
                r
            }
        } else if c1 == row_cnt_tiles - 1 {
            // Bottom edge: right, left or up.
            rand_below(3) + 1
        } else {
            // Interior: any of the four.
            rand_below(4)
        };

        if direction == 0 {
            (c1 + 1, c2)
        } else if direction == 1 {
            (c1, c2 + 1)
        } else if direction == 2 {
            (c1, c2 - 1)
        } else {
            (c1 - 1, c2)
        }
    }
}

} // verus!

//! The meal: the single target cell the snake is chasing, eat detection, and
//! placement of the next meal on a cell the snake does not occupy.

use vstd::prelude::*;

use crate::rng::gen_range_below;
use crate::snake::BodyPiece;
use crate::snake::Snek;
use crate::snake::cell_in_bounds;
use crate::snake::lemma_free_cell_exists;

verus! {

/// The meal's cell on the grid.
pub struct Meal {
    pub x: u32,
    pub y: u32,
}

impl Meal {
    /// The meal's position as a grid cell.
    pub open spec fn cell(self) -> BodyPiece {
        BodyPiece(self.x, self.y)
    }

    /// Eat detection: true exactly when the snake's head sits on the meal.
    /// The meal itself is left untouched.
    pub fn update(&mut self, s: &Snek) -> (r: bool)
        requires
            s.body@.len() >= 1,
        ensures
            *final(self) == *old(self),
            r == (s.head() == old(self).cell()),
    {
        let front = s.body[0];
        front.0 == self.x && front.1 == self.y
    }

    /// Place the meal on a cell the snake does not occupy: first by sampling
    /// random cells, then, should every sample land on the snake, by scanning
    /// the grid for a free cell, which the size bound guarantees to exist.
    pub fn respawn(&mut self, s: &Snek, cols: u32, rows: u32)
        requires
            cols >= 1,
            rows >= 1,
            s.body@.len() < (cols as int) * (rows as int),
        ensures
            cell_in_bounds(final(self).cell(), cols, rows),
            !s.occupies(final(self).cell()),
    {
        proof {
            assert((cols as u64) * (rows as u64) <= u64::MAX) by (nonlinear_arith)
                requires
                    cols <= u32::MAX,
                    rows <= u32::MAX,
            {}
        }
        let total: u64 = (cols as u64) * (rows as u64);
        let mut tries: u64 = total;
        while tries > 0
            invariant
                cols >= 1,
                rows >= 1,
            decreases tries,
        {
            let new_x = gen_range_below(cols);
            let new_y = gen_range_below(rows);
            if !s.is_collide(new_x, new_y) {
                self.x = new_x;
                self.y = new_y;
                return;
            }
            tries = tries - 1;
        }

        let mut y: u32 = 0;
        while y < rows
            invariant
                y <= rows,
                forall|cx: u32, cy: u32| cx < cols && cy < y ==> #[trigger] s.occupies(
                    BodyPiece(cx, cy),
                ),
            decreases rows - y,
        {
            let mut x: u32 = 0;
            while x < cols
                invariant
                    x <= cols,
                    y < rows,
                    forall|cx: u32, cy: u32| cx < cols && cy < y ==> #[trigger] s.occupies(
                        BodyPiece(cx, cy),
                    ),
                    forall|cx: u32| cx < x ==> #[trigger] s.occupies(BodyPiece(cx, y)),
                decreases cols - x,
            {
                if !s.is_collide(x, y) {
                    self.x = x;
                    self.y = y;
                    return;
                }
                x += 1;
            }
            y += 1;
        }

        proof {
            lemma_free_cell_exists(*s, cols, rows);
            let (wx, wy) = choose|wx: u32, wy: u32| wx < cols && wy < rows && !s.occupies(
                BodyPiece(wx, wy),
            );
            assert(s.occupies(BodyPiece(wx, wy)));
        }
        self.x = 0;
        self.y = 0;
    }
}

} // verus!

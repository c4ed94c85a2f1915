//! The game: snake, meal, grid bounds and score, and the tick that moves the
//! snake, applies pending growth, detects eating and places the next meal.

use vstd::prelude::*;

use crate::food::Meal;
use crate::snake::BodyPiece;
use crate::snake::Direction;
use crate::snake::Snek;
use crate::snake::advance_ok;
use crate::snake::advanced_body;
use crate::snake::cell_in_bounds;
use crate::snake::opposite;
use crate::snake::shrunk_body;
use crate::snake::step;
use crate::snake::wall_hit;

verus! {

/// The whole game state. `ate` is the pending-growth flag: set on the tick
/// that detects eating, consumed (growth plus score) on the next tick.
pub struct Game {
    pub rows: u32,
    pub cols: u32,
    pub snek: Snek,
    pub ate: bool,
    pub square_width: u32,
    pub target: Meal,
    pub score: u32,
}

impl Game {
    /// Well-formedness: the snake is well-formed on this grid and the meal
    /// lies on the grid.
    pub open spec fn wf(self) -> bool {
        &&& self.snek.wf(self.cols, self.rows)
        &&& cell_in_bounds(self.target.cell(), self.cols, self.rows)
    }

    /// A fresh game: a one-segment snake at the centre of the grid heading
    /// right, the meal at (1, 1), nothing eaten and no score.
    pub fn new(cols: u32, rows: u32, square_width: u32) -> (g: Game)
        requires
            cols >= 2,
            rows >= 2,
        ensures
            g.wf(),
            g.cols == cols,
            g.rows == rows,
            g.square_width == square_width,
            g.snek.body@ == seq![BodyPiece(cols / 2, rows / 2)],
            g.snek.facing == Direction::Right,
            g.ate == false,
            g.target.cell() == BodyPiece(1, 1),
            g.score == 0,
    {
        let mut body: Vec<BodyPiece> = Vec::new();
        body.push(BodyPiece(cols / 2, rows / 2));
        let g = Game {
            rows,
            cols,
            snek: Snek { body, facing: Direction::Right },
            ate: false,
            square_width,
            target: Meal { x: 1, y: 1 },
            score: 0,
        };
        proof {
            assert(g.snek.body@ =~= seq![BodyPiece(cols / 2, rows / 2)]);
        }
        g
    }

    /// One tick. Moves the snake (growing when the previous tick detected
    /// eating), then applies score for that growth, then detects eating and
    /// places the next meal off the snake. Returns `false` exactly when the
    /// move collided with a wall or the body: the game is over and the state
    /// is left as the failed move left it, the score untouched.
    ///
    /// A meal eaten by a snake that now fills the whole grid has no free
    /// cell to move to, so the meal is then left where it was.
    pub fn update(&mut self) -> (r: bool)
        requires
            old(self).wf(),
            old(self).ate ==> old(self).score < u32::MAX,
        ensures
            final(self).cols == old(self).cols,
            final(self).rows == old(self).rows,
            final(self).square_width == old(self).square_width,
            final(self).snek.facing == old(self).snek.facing,
            r == advance_ok(old(self).snek, old(self).ate, old(self).cols, old(self).rows),
            !r ==> {
                &&& final(self).ate == old(self).ate
                &&& final(self).score == old(self).score
                &&& final(self).target == old(self).target
                &&& final(self).snek.body@ == (if wall_hit(
                    old(self).snek.head(),
                    old(self).snek.facing,
                    old(self).cols,
                    old(self).rows,
                ) {
                    old(self).snek.body@
                } else {
                    shrunk_body(old(self).snek, old(self).ate)
                })
            },
            r ==> {
                let moved = advanced_body(old(self).snek, old(self).ate);
                let new_head = step(old(self).snek.head(), old(self).snek.facing);
                &&& final(self).snek.body@ == moved
                &&& final(self).score == (if old(self).ate {
                    old(self).score + 1
                } else {
                    old(self).score as int
                })
                &&& final(self).ate == (new_head == old(self).target.cell())
                &&& (!final(self).ate ==> final(self).target == old(self).target)
                &&& (final(self).ate ==> (if moved.len() < (old(self).cols as int) * (
                    old(self).rows as int
                ) {
                    &&& cell_in_bounds(final(self).target.cell(), old(self).cols, old(self).rows)
                    &&& !final(self).snek.occupies(final(self).target.cell())
                } else {
                    final(self).target == old(self).target
                }))
                &&& final(self).wf()
            },
    {
        let cols = self.cols;
        let rows = self.rows;
        if !self.snek.update(self.ate, cols, rows) {
            return false;
        }

        if self.ate {
            self.score += 1;
            self.ate = false;
        }

        self.ate = self.target.update(&self.snek);
        if self.ate {
            proof {
                assert((cols as u64) * (rows as u64) <= u64::MAX) by (nonlinear_arith)
                    requires
                        cols <= u32::MAX,
                        rows <= u32::MAX,
                {}
            }
            if (self.snek.body.len() as u64) < (cols as u64) * (rows as u64) {
                self.target.respawn(&self.snek, cols, rows);
            }
        }
        true
    }

    /// Translate a directional press into a heading request: the snake's
    /// heading becomes `dir` unless `dir` is exactly opposite the current
    /// heading, in which case the press is ignored. Nothing else changes.
    pub fn pressed(&mut self, dir: Direction)
        ensures
            final(self).snek.body == old(self).snek.body,
            final(self).snek.facing == (if dir == opposite(old(self).snek.facing) {
                old(self).snek.facing
            } else {
                dir
            }),
            final(self).cols == old(self).cols,
            final(self).rows == old(self).rows,
            final(self).square_width == old(self).square_width,
            final(self).ate == old(self).ate,
            final(self).target == old(self).target,
            final(self).score == old(self).score,
    {
        self.snek.set_heading(dir);
    }
}

} // verus!

//! The snake itself: an ordered list of occupied grid cells (head first), a
//! current heading, and the per-tick movement rules.

use vstd::prelude::*;

verus! {

use vstd::arithmetic::div_mod::lemma_fundamental_div_mod_converse;
use vstd::set_lib::set_int_range;
use vstd::set_lib::lemma_int_range;
use vstd::set_lib::lemma_len_subset;
use vstd::seq_lib::seq_to_set_is_finite;

/// A direction the snake's head can move on the next tick.
#[derive(Clone, Copy, PartialEq, Eq, Structural, Debug)]
pub enum Direction {
    Right,
    Left,
    Up,
    Down,
}

/// The direction exactly opposite to `d`; a heading request equal to this is
/// ignored, so the snake can never reverse into its own neck.
pub open spec fn opposite(d: Direction) -> Direction {
    match d {
        Direction::Right => Direction::Left,
        Direction::Left => Direction::Right,
        Direction::Up => Direction::Down,
        Direction::Down => Direction::Up,
    }
}

/// One occupied grid cell: column first, then row.
#[derive(Clone, Copy, PartialEq, Eq, Structural, Debug)]
pub struct BodyPiece(pub u32, pub u32);

/// `c` lies on a grid of `cols` columns and `rows` rows.
pub open spec fn cell_in_bounds(c: BodyPiece, cols: u32, rows: u32) -> bool {
    c.0 < cols && c.1 < rows
}

/// Moving one step from `head` towards `d` would leave the grid; checked
/// before any coordinate arithmetic, so the unsigned coordinates never wrap.
pub open spec fn wall_hit(head: BodyPiece, d: Direction, cols: u32, rows: u32) -> bool {
    match d {
        Direction::Up => head.1 == 0,
        Direction::Left => head.0 == 0,
        Direction::Down => head.1 == rows - 1,
        Direction::Right => head.0 == cols - 1,
    }
}

/// The cell one step from `head` towards `d`; meaningful when
/// `!wall_hit(head, d, cols, rows)`, which keeps both coordinates in range.
pub open spec fn step(head: BodyPiece, d: Direction) -> BodyPiece {
    match d {
        Direction::Up => BodyPiece(head.0, (head.1 - 1) as u32),
        Direction::Down => BodyPiece(head.0, (head.1 + 1) as u32),
        Direction::Left => BodyPiece((head.0 - 1) as u32, head.1),
        Direction::Right => BodyPiece((head.0 + 1) as u32, head.1),
    }
}

/// The body after the tail has (or has not) been dropped for this tick: on a
/// growing tick the tail is retained, otherwise it is removed from the back.
pub open spec fn shrunk_body(s: Snek, just_eaten: bool) -> Seq<BodyPiece> {
    if just_eaten {
        s.body@
    } else {
        s.body@.drop_last()
    }
}

/// The move of one tick succeeds: the new head stays on the grid and does not
/// land on any cell still occupied after the tail's removal. Colliding with
/// the cell the tail is vacating this very tick is therefore no collision.
pub open spec fn advance_ok(s: Snek, just_eaten: bool, cols: u32, rows: u32) -> bool {
    &&& !wall_hit(s.head(), s.facing, cols, rows)
    &&& !shrunk_body(s, just_eaten).contains(step(s.head(), s.facing))
}

/// The body after a successful move: the new head in front of the (possibly
/// shrunk) previous body.
pub open spec fn advanced_body(s: Snek, just_eaten: bool) -> Seq<BodyPiece> {
    seq![step(s.head(), s.facing)] + shrunk_body(s, just_eaten)
}

/// The snake: body cells in order, index 0 the head, last index the tail.
pub struct Snek {
    pub body: Vec<BodyPiece>,
    pub facing: Direction,
}

impl Snek {
    /// The head cell; well-formed snakes are never empty.
    pub open spec fn head(self) -> BodyPiece {
        self.body@[0]
    }

    /// Some body segment occupies `c`.
    pub open spec fn occupies(self, c: BodyPiece) -> bool {
        self.body@.contains(c)
    }

    /// Well-formedness on a `cols` by `rows` grid: at least one segment,
    /// every segment on the grid, and no two segments on the same cell.
    pub open spec fn wf(self, cols: u32, rows: u32) -> bool {
        &&& self.body@.len() >= 1
        &&& forall|i: int| 0 <= i < self.body@.len() ==> cell_in_bounds(#[trigger] self.body@[i], cols, rows)
        &&& forall|i: int, j: int| 0 <= i < j < self.body@.len() ==> self.body@[i] != self.body@[j]
    }

    /// Overwrite the heading with `requested`, unless `requested` is exactly
    /// opposite the current heading, in which case the request is ignored.
    pub fn set_heading(&mut self, requested: Direction)
        ensures
            final(self).body == old(self).body,
            final(self).facing == (if requested == opposite(old(self).facing) {
                old(self).facing
            } else {
                requested
            }),
    {
        let opp = match self.facing {
            Direction::Right => Direction::Left,
            Direction::Left => Direction::Right,
            Direction::Up => Direction::Down,
            Direction::Down => Direction::Up,
        };
        if requested != opp {
            self.facing = requested;
        }
    }

    /// Move the snake one cell towards its heading, retaining the tail when
    /// `just_eaten` holds; returns `false` (and the game is over) when the
    /// head would leave the `cols` by `rows` grid or land on the body.
    ///
    /// The boundary test precedes the coordinate arithmetic, so an unsigned
    /// coordinate never wraps. On a wall hit the snake is left untouched; on
    /// a self-collision the tail removal has already happened.
    pub fn update(&mut self, just_eaten: bool, cols: u32, rows: u32) -> (r: bool)
        requires
            old(self).wf(cols, rows),
        ensures
            final(self).facing == old(self).facing,
            r == advance_ok(*old(self), just_eaten, cols, rows),
            r ==> final(self).body@ == advanced_body(*old(self), just_eaten),
            r ==> final(self).wf(cols, rows),
            r && just_eaten ==> final(self).body@.len() == old(self).body@.len() + 1,
            r && !just_eaten ==> final(self).body@.len() == old(self).body@.len(),
            !r ==> final(self).body@ == (if wall_hit(old(self).head(), old(self).facing, cols, rows) {
                old(self).body@
            } else {
                shrunk_body(*old(self), just_eaten)
            }),
    {
        let head = self.body[0];

        let hit = match self.facing {
            Direction::Up => head.1 == 0,
            Direction::Left => head.0 == 0,
            Direction::Down => head.1 == rows - 1,
            Direction::Right => head.0 == cols - 1,
        };
        if hit {
            return false;
        }

        let new_front = match self.facing {
            Direction::Up => BodyPiece(head.0, head.1 - 1),
            Direction::Down => BodyPiece(head.0, head.1 + 1),
            Direction::Left => BodyPiece(head.0 - 1, head.1),
            Direction::Right => BodyPiece(head.0 + 1, head.1),
        };
        if !just_eaten {
            self.body.pop();
        }

        if self.is_collide(new_front.0, new_front.1) {
            return false;
        }

        self.body.insert(0, new_front);
        proof {
            assert(self.body@ =~= advanced_body(*old(self), just_eaten));
        }
        true
    }

    /// Some body segment sits at column `x`, row `y`.
    pub fn is_collide(&self, x: u32, y: u32) -> (r: bool)
        ensures
            r == self.occupies(BodyPiece(x, y)),
    {
        let mut i: usize = 0;
        while i < self.body.len()
            invariant
                i <= self.body.len(),
                forall|j: int| 0 <= j < i ==> self.body@[j] != BodyPiece(x, y),
            decreases self.body.len() - i,
        {
            let p = self.body[i];
            if p.0 == x && p.1 == y {
                return true;
            }
            i += 1;
        }
        false
    }
}

/// Row-major code of a cell: a distinct integer in `[0, cols * rows)` for
/// each cell of the grid.
pub open spec fn cell_code(c: BodyPiece, cols: u32) -> int {
    (c.1 as int) * (cols as int) + (c.0 as int)
}

/// An in-bounds cell's code lies in `[0, cols * rows)`.
proof fn lemma_cell_code_range(c: BodyPiece, cols: u32, rows: u32)
    requires
        cell_in_bounds(c, cols, rows),
    ensures
        0 <= cell_code(c, cols) < (cols as int) * (rows as int),
{
    assert((c.1 as int) * (cols as int) + (c.0 as int) < (cols as int) * (rows as int))
        by (nonlinear_arith)
        requires
            (c.0 as int) < (cols as int),
            (c.1 as int) < (rows as int),
            0 <= c.0 as int,
            0 <= c.1 as int,
    {}
}

/// Distinct in-bounds cells have distinct codes.
proof fn lemma_cell_code_injective(c1: BodyPiece, c2: BodyPiece, cols: u32, rows: u32)
    requires
        cell_in_bounds(c1, cols, rows),
        cell_in_bounds(c2, cols, rows),
        cell_code(c1, cols) == cell_code(c2, cols),
    ensures
        c1 == c2,
{
    lemma_fundamental_div_mod_converse(cell_code(c1, cols), cols as int, c1.1 as int, c1.0 as int);
    lemma_fundamental_div_mod_converse(cell_code(c2, cols), cols as int, c2.1 as int, c2.0 as int);
}

/// The occupied cells of a well-formed snake are distinct and all on the
/// grid, so the body can never hold fewer than one or more than
/// `cols * rows` segments.
pub proof fn lemma_body_len_bound(s: Snek, cols: u32, rows: u32)
    requires
        s.wf(cols, rows),
    ensures
        1 <= s.body@.len() <= (cols as int) * (rows as int),
{
    broadcast use seq_to_set_is_finite;

    let total = (cols as int) * (rows as int);
    let codes = s.body@.map_values(|c: BodyPiece| cell_code(c, cols));
    assert forall|i: int, j: int| 0 <= i < j < codes.len() implies codes[i] != codes[j] by {
        if codes[i] == codes[j] {
            lemma_cell_code_injective(s.body@[i], s.body@[j], cols, rows);
        }
    }
    assert(codes.no_duplicates());
    codes.unique_seq_to_set();
    assert forall|k: int| codes.to_set().contains(k) implies set_int_range(0, total).contains(k) by {
        let i = choose|i: int| 0 <= i < codes.len() && codes[i] == k;
        lemma_cell_code_range(s.body@[i], cols, rows);
    }
    lemma_int_range(0, total);
    lemma_len_subset(codes.to_set(), set_int_range(0, total));
}

/// A snake strictly smaller than the grid cannot occupy every cell: some
/// in-bounds cell is free, for full coverage of the grid would force at
/// least `cols * rows` segments.
pub proof fn lemma_free_cell_exists(s: Snek, cols: u32, rows: u32)
    requires
        cols >= 1,
        rows >= 1,
        s.body@.len() < (cols as int) * (rows as int),
    ensures
        exists|cx: u32, cy: u32| cx < cols && cy < rows && !#[trigger] s.occupies(BodyPiece(cx, cy)),
{
    broadcast use seq_to_set_is_finite;

    if forall|cx: u32, cy: u32| cx < cols && cy < rows ==> #[trigger] s.occupies(BodyPiece(cx, cy)) {
        lemma_grid_coverage_is_large(s, cols, rows);
    }
}

/// Full coverage of the grid forces at least `cols * rows` segments.
proof fn lemma_grid_coverage_is_large(s: Snek, cols: u32, rows: u32)
    requires
        cols >= 1,
        rows >= 1,
        forall|cx: u32, cy: u32| cx < cols && cy < rows ==> #[trigger] s.occupies(BodyPiece(cx, cy)),
    ensures
        s.body@.len() >= (cols as int) * (rows as int),
{
    broadcast use seq_to_set_is_finite;

    let total = (cols as int) * (rows as int);
    let codes = s.body@.map_values(|c: BodyPiece| cell_code(c, cols));
    assert forall|k: int| set_int_range(0, total).contains(k) implies codes.to_set().contains(k) by {
        let q = k / (cols as int);
        let r = k % (cols as int);
        assert(0 <= r < cols as int && k == q * (cols as int) + r) by {
            vstd::arithmetic::div_mod::lemma_fundamental_div_mod(k, cols as int);
            vstd::arithmetic::div_mod::lemma_mod_bound(k, cols as int);
        }
        assert(q < rows as int) by (nonlinear_arith)
            requires
                k < (cols as int) * (rows as int),
                k == q * (cols as int) + r,
                0 <= r,
                0 <= k,
                cols >= 1,
        {}
        assert(0 <= q) by (nonlinear_arith)
            requires
                0 <= k,
                k == q * (cols as int) + r,
                r < cols as int,
                cols >= 1,
        {}
        let c = BodyPiece(r as u32, q as u32);
        assert(s.occupies(c));
        assert(cell_code(c, cols) == k);
        let i = choose|i: int| 0 <= i < s.body@.len() && s.body@[i] == c;
        assert(codes[i] == k);
        assert(codes.contains(k));
    }
    lemma_int_range(0, total);
    codes.lemma_cardinality_of_set();
    lemma_len_subset(set_int_range(0, total), codes.to_set());
}

/// Moving into the cell the tail is vacating on the same tick is legal: when
/// the stepped-to cell equals the current tail of a well-formed snake, a
/// non-growing move succeeds.
pub proof fn lemma_tail_vacated_legal(s: Snek, cols: u32, rows: u32)
    requires
        s.wf(cols, rows),
        !wall_hit(s.head(), s.facing, cols, rows),
        step(s.head(), s.facing) == s.body@.last(),
    ensures
        advance_ok(s, false, cols, rows),
{
    let nh = step(s.head(), s.facing);
    let shrunk = s.body@.drop_last();
    if shrunk.contains(nh) {
        let i = choose|i: int| 0 <= i < shrunk.len() && shrunk[i] == nh;
        assert(s.body@[i] == s.body@[s.body@.len() - 1]);
        assert(false);
    }
}

} // verus!

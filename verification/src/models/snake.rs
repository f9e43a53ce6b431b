//! The snake model over the screen-derived field of 48 by 27 cells: the
//! score with its level tiers, the apple, and the snake itself, which moves
//! one cell per tick and wraps around the field's edges.

use crate::random;
use vstd::prelude::*;

verus! {

/// The field width in cells.
pub const COLS: i32 = 48;

/// The field height in cells.
pub const ROWS: i32 = 27;

/// The level a count of eaten apples earns: thresholds at 5, 15 and 30.
pub open spec fn spec_level(apples: int) -> int {
    if 0 <= apples < 5 {
        0
    } else if 5 <= apples < 15 {
        1
    } else if 15 <= apples < 30 {
        2
    } else {
        3
    }
}

/// The count of eaten apples and the level tier derived from it.
pub struct Score(i32, u64);

impl Score {
    /// The number of apples eaten.
    pub closed spec fn apples(&self) -> int {
        self.0 as int
    }

    /// The level tier as last derived by `update`.
    pub closed spec fn tier(&self) -> int {
        self.1 as int
    }

    /// One more apple was eaten.
    pub fn inc(&mut self)
        requires
            old(self).apples() < i32::MAX,
        ensures
            final(self).apples() == old(self).apples() + 1,
            final(self).tier() == old(self).tier(),
    {
        self.0 = self.0 + 1;
    }

    /// The current level tier.
    pub fn level(&self) -> (r: u64)
        ensures
            r == self.tier(),
    {
        self.1
    }

    /// Re-derive the level from the apple count.
    pub fn update(&mut self)
        ensures
            final(self).apples() == old(self).apples(),
            final(self).tier() == spec_level(old(self).apples()),
    {
        self.1 = if 0 <= self.0 && self.0 < 5 {
            0
        } else if 5 <= self.0 && self.0 < 15 {
            1
        } else if 15 <= self.0 && self.0 < 30 {
            2
        } else {
            3
        };
    }
}

impl Default for Score {
    /// A fresh score: no apples, level 0.
    fn default() -> (r: Self)
        ensures
            r.apples() == 0,
            r.tier() == 0,
    {
        Score(0, 0)
    }
}

/// The level mapping is a pure step function of the apple count: level 0
/// at 0 apples, rising at the thresholds 5, 15 and 30, and monotone.
pub proof fn lemma_level_step()
    ensures
        spec_level(0) == 0,
        spec_level(5) == 1,
        spec_level(15) == 2,
        forall|n: int| n >= 30 ==> spec_level(n) == 3,
        forall|a: int, b: int| 0 <= a <= b ==> spec_level(a) <= spec_level(b),
{
}

/// The apple's cell.
#[derive(Clone, Copy, PartialEq, Eq, Structural, Debug)]
pub struct Apple(pub i32, pub i32);

impl Default for Apple {
    fn default() -> (r: Self)
        ensures
            r == Apple(0, 0),
    {
        Apple(0, 0)
    }
}

impl Apple {
    /// A fresh apple drawn uniformly inside the given field.
    pub fn new(field: (i32, i32)) -> (r: Self)
        requires
            field.0 > 0,
            field.1 > 0,
        ensures
            0 <= r.0 < field.0,
            0 <= r.1 < field.1,
    {
        Self(random::random_range_i32(0, field.0), random::random_range_i32(0, field.1))
    }
}

/// A column wrapped to the field: stepping one cell off the left edge
/// re-enters at the right, off the right edge at column 0.
pub open spec fn wrap_x(c: int) -> int {
    if c == -1 {
        COLS - 1
    } else if 0 <= c < COLS {
        c
    } else {
        0
    }
}

/// A row wrapped to the field, as `wrap_x` for columns.
pub open spec fn wrap_y(c: int) -> int {
    if c == -1 {
        ROWS - 1
    } else if 0 <= c < ROWS {
        c
    } else {
        0
    }
}

pub fn check_x(coord: i32) -> (r: i32)
    ensures
        r == wrap_x(coord as int),
{
    if coord == -1 {
        COLS - 1
    } else if 0 <= coord && coord < COLS {
        coord
    } else {
        0
    }
}

pub fn check_y(coord: i32) -> (r: i32)
    ensures
        r == wrap_y(coord as int),
{
    if coord == -1 {
        ROWS - 1
    } else if 0 <= coord && coord < ROWS {
        coord
    } else {
        0
    }
}

/// The snake: its body cells, head first, and its current direction.
pub struct Snake {
    pub body: Vec<(i32, i32)>,
    pub direction: (i32, i32),
}

/// The cell the snake's head moves to next: one step in its direction,
/// wrapped to the field.
pub open spec fn next_head(s: Snake) -> (int, int) {
    (wrap_x(s.body@[0].0 + s.direction.0), wrap_y(s.body@[0].1 + s.direction.1))
}

impl Default for Snake {
    /// A one-cell snake at the origin heading right.
    fn default() -> (r: Self)
        ensures
            r.body@ =~= seq![(0i32, 0i32)],
            r.direction == (1i32, 0i32),
    {
        let mut body: Vec<(i32, i32)> = Vec::new();
        body.push((0, 0));
        Snake { body, direction: (1, 0) }
    }
}

impl Snake {
    /// Restart as a one-cell snake at a random cell of the field, heading
    /// right.
    pub fn set(&mut self, field: (i32, i32))
        requires
            field.0 > 0,
            field.1 > 0,
        ensures
            final(self).body@.len() == 1,
            0 <= final(self).body@[0].0 < field.0,
            0 <= final(self).body@[0].1 < field.1,
            final(self).direction == (1i32, 0i32),
    {
        let mut body: Vec<(i32, i32)> = Vec::new();
        body.push((random::random_range_i32(0, field.0), random::random_range_i32(0, field.1)));
        *self = Snake { body, direction: (1, 0) };
    }

    /// Advance the snake one cell: the head steps in the current direction,
    /// wrapping at the edges. When the new head would land on the body the
    /// snake dies and nothing moves; otherwise the new head is prepended
    /// (the tail is the caller's to pop) and returned.
    pub fn update(&mut self) -> (r: Option<(i32, i32)>)
        requires
            old(self).body@.len() > 0,
            i32::MIN < old(self).body@[0].0 + old(self).direction.0 < i32::MAX,
            i32::MIN < old(self).body@[0].1 + old(self).direction.1 < i32::MAX,
        ensures
            final(self).direction == old(self).direction,
            r is Some <==> !old(self).body@.contains(
                ((next_head(*old(self)).0 as i32, next_head(*old(self)).1 as i32)),
            ),
            r is Some ==> r == Some(
                ((next_head(*old(self)).0 as i32, next_head(*old(self)).1 as i32)),
            ) && final(self).body@ == seq![
                (next_head(*old(self)).0 as i32, next_head(*old(self)).1 as i32),
            ] + old(self).body@,
            r is None ==> final(self).body@ == old(self).body@,
    {
        let head = self.body[0];
        let x = check_x(head.0 + self.direction.0);
        let y = check_y(head.1 + self.direction.1);
        proof {
            assert(0 <= wrap_x(head.0 + self.direction.0) < COLS);
            assert(0 <= wrap_y(head.1 + self.direction.1) < ROWS);
        }
        if contains_cell(&self.body, x, y) {
            None
        } else {
            self.body.insert(0, (x, y));
            assert(self.body@ =~= seq![(x, y)] + old(self).body@);
            Some((x, y))
        }
    }

    /// Turn the snake: the new direction is taken unless it repeats or
    /// exactly reverses the current one.
    pub fn direction(&mut self, x: i32, y: i32)
        requires
            i32::MIN < x,
            i32::MIN < y,
        ensures
            final(self).body == old(self).body,
            final(self).direction == (if (old(self).direction.0 != x || old(self).direction.1 != y)
                && (old(self).direction.0 != -x || old(self).direction.1 != -y) {
                (x, y)
            } else {
                old(self).direction
            }),
    {
        if (self.direction.0 != x || self.direction.1 != y) && (self.direction.0 != -x
            || self.direction.1 != -y) {
            self.direction = (x, y);
        }
    }
}

/// Whether the given cell is one of the body's cells.
#[verifier::loop_isolation(false)]
pub fn contains_cell(body: &Vec<(i32, i32)>, x: i32, y: i32) -> (r: bool)
    ensures
        r <==> body@.contains((x, y)),
{
    let n = body.len();
    for k in 0..n
        invariant
            n == body@.len(),
            forall|m: int| 0 <= m < k ==> #[trigger] body@[m] != (x, y),
    {
        let c = body[k];
        if c.0 == x && c.1 == y {
            assert(body@[k as int] == (x, y));
            return true;
        }
    }
    assert(!body@.contains((x, y)));
    false
}

} // verus!

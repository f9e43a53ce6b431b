//! The Tetris engine: the score and its level tiers, the falling figure
//! with its shape table and rotation, the bag of upcoming pieces, and the
//! playfield grid. The playfield is 15 cells wide and 30 tall; a figure is
//! four cells of one of seven shapes in one of four rotations.

use crate::grid;
use crate::random;
use vstd::prelude::*;

pub mod runner;
pub mod snake;

verus! {

pub const GRID_WIDTH: usize = 15;

pub const GRID_HEIGHT: usize = 30;

/// The number of distinct shapes.
pub const SHAPES: usize = 7;

/// The four cell offsets of a shape in a given rotation, as the table rows
/// them: square, straight, S, Z, T, J, L. Each offset is (column, row),
/// non-negative and at most 3, and each row touches column 0 and row 0.
pub open spec fn fig_row(c: int, r: int) -> Seq<(int, int)> {
    if c == 0 {
        seq![(0, 0), (1, 0), (0, 1), (1, 1)]
    } else if c == 1 {
        if r == 1 || r == 3 {
            seq![(0, 0), (1, 0), (2, 0), (3, 0)]
        } else {
            seq![(0, 0), (0, 1), (0, 2), (0, 3)]
        }
    } else if c == 2 {
        if r == 1 || r == 3 {
            seq![(0, 0), (0, 1), (1, 1), (1, 2)]
        } else {
            seq![(0, 1), (1, 1), (1, 0), (2, 0)]
        }
    } else if c == 3 {
        if r == 1 || r == 3 {
            seq![(1, 0), (1, 1), (0, 1), (0, 2)]
        } else {
            seq![(0, 0), (1, 0), (1, 1), (2, 1)]
        }
    } else if c == 4 {
        if r == 1 {
            seq![(0, 1), (1, 0), (1, 1), (1, 2)]
        } else if r == 2 {
            seq![(0, 1), (1, 0), (1, 1), (2, 1)]
        } else if r == 3 {
            seq![(0, 0), (0, 1), (1, 1), (0, 2)]
        } else {
            seq![(0, 0), (1, 0), (1, 1), (2, 0)]
        }
    } else if c == 5 {
        if r == 1 {
            seq![(0, 0), (0, 1), (1, 1), (2, 1)]
        } else if r == 2 {
            seq![(0, 0), (1, 0), (0, 1), (0, 2)]
        } else if r == 3 {
            seq![(0, 0), (1, 0), (2, 0), (2, 1)]
        } else {
            seq![(1, 0), (1, 1), (1, 2), (0, 2)]
        }
    } else {
        if r == 1 {
            seq![(0, 0), (1, 0), (2, 0), (0, 1)]
        } else if r == 2 {
            seq![(0, 0), (1, 0), (1, 1), (1, 2)]
        } else if r == 3 {
            seq![(0, 1), (1, 1), (2, 1), (2, 0)]
        } else {
            seq![(0, 0), (0, 1), (0, 2), (1, 2)]
        }
    }
}

/// The executable shape table; its rows agree with `fig_row` and every
/// offset lies in `0..=3`.
pub fn figure_row(color: usize, rotate: usize) -> (row: [(i32, usize); 4])
    requires
        color < SHAPES,
        rotate < 4,
    ensures
        forall|k: int|
            0 <= k < 4 ==> ((#[trigger] row@[k]).0 as int, row@[k].1 as int) == fig_row(
                color as int,
                rotate as int,
            )[k],
        forall|k: int| 0 <= k < 4 ==> 0 <= (#[trigger] row@[k]).0 <= 3 && row@[k].1 <= 3,
{
    match color {
        0 => [(0, 0), (1, 0), (0, 1), (1, 1)],
        1 => match rotate {
            1 | 3 => [(0, 0), (1, 0), (2, 0), (3, 0)],
            _ => [(0, 0), (0, 1), (0, 2), (0, 3)],
        },
        2 => match rotate {
            1 | 3 => [(0, 0), (0, 1), (1, 1), (1, 2)],
            _ => [(0, 1), (1, 1), (1, 0), (2, 0)],
        },
        3 => match rotate {
            1 | 3 => [(1, 0), (1, 1), (0, 1), (0, 2)],
            _ => [(0, 0), (1, 0), (1, 1), (2, 1)],
        },
        4 => match rotate {
            1 => [(0, 1), (1, 0), (1, 1), (1, 2)],
            2 => [(0, 1), (1, 0), (1, 1), (2, 1)],
            3 => [(0, 0), (0, 1), (1, 1), (0, 2)],
            _ => [(0, 0), (1, 0), (1, 1), (2, 0)],
        },
        5 => match rotate {
            1 => [(0, 0), (0, 1), (1, 1), (2, 1)],
            2 => [(0, 0), (1, 0), (0, 1), (0, 2)],
            3 => [(0, 0), (1, 0), (2, 0), (2, 1)],
            _ => [(1, 0), (1, 1), (1, 2), (0, 2)],
        },
        _ => match rotate {
            1 => [(0, 0), (1, 0), (2, 0), (0, 1)],
            2 => [(0, 0), (1, 0), (1, 1), (1, 2)],
            3 => [(0, 1), (1, 1), (2, 1), (2, 0)],
            _ => [(0, 0), (0, 1), (0, 2), (1, 2)],
        },
    }
}

/// The level a line count earns: a step function with thresholds at one,
/// two and three cleared lines.
pub open spec fn spec_level(lines: int) -> int {
    if 0 <= lines < 1 {
        0
    } else if 1 <= lines < 2 {
        1
    } else if 2 <= lines < 3 {
        2
    } else {
        3
    }
}

/// The cleared-line count and the level tier derived from it.
pub struct Score(i32, u64);

impl Score {
    /// The number of cleared lines.
    pub closed spec fn lines(&self) -> int {
        self.0 as int
    }

    /// The level tier as last derived by `update`.
    pub closed spec fn level(&self) -> int {
        self.1 as int
    }

    /// One more line was cleared.
    pub fn inc(&mut self)
        requires
            old(self).lines() < i32::MAX,
        ensures
            final(self).lines() == old(self).lines() + 1,
            final(self).level() == old(self).level(),
    {
        self.0 = self.0 + 1;
    }

    /// The line count and the level, in that order.
    pub fn get(&self) -> (r: (i32, u64))
        ensures
            r.0 == self.lines(),
            r.1 == self.level(),
    {
        (self.0, self.1)
    }

    /// Re-derive the level from the line count.
    pub fn update(&mut self)
        ensures
            final(self).lines() == old(self).lines(),
            final(self).level() == spec_level(old(self).lines()),
    {
        self.1 = if 0 <= self.0 && self.0 < 1 {
            0
        } else if 1 <= self.0 && self.0 < 2 {
            1
        } else if 2 <= self.0 && self.0 < 3 {
            2
        } else {
            3
        };
    }
}

impl Default for Score {
    /// A fresh score: no lines, level 0.
    fn default() -> (r: Self)
        ensures
            r.lines() == 0,
            r.level() == 0,
    {
        Score(0, 0)
    }
}

/// The level mapping is a pure step function of the cleared-line count:
/// level 0 at 0 lines, rising by one at each of the thresholds 1, 2 and 3,
/// and monotone over the counts the game can reach.
pub proof fn lemma_level_step()
    ensures
        spec_level(0) == 0,
        spec_level(1) == 1,
        spec_level(2) == 2,
        forall|n: int| n >= 3 ==> spec_level(n) == 3,
        forall|a: int, b: int| 0 <= a <= b ==> spec_level(a) <= spec_level(b),
{
}

/// The falling figure: four cell coordinates (column, row) and its shape
/// identity (shape index, rotation index).
#[derive(Clone, Copy)]
pub struct Figure {
    pub coor: [(i32, usize); 4],
    pub shape: (usize, usize),
}

/// The figure's coordinates as integer pairs.
pub open spec fn fig_coor(f: Figure) -> Seq<(int, int)> {
    grid::coor_model(f.coor@)
}

/// The figure as a mathematical value: coordinates, shape, rotation.
pub open spec fn fig_model(f: Figure) -> (Seq<(int, int)>, int, int) {
    (fig_coor(f), f.shape.0 as int, f.shape.1 as int)
}

/// The cell coordinates of shape `c` in rotation `r` based at `(x, y)`.
pub open spec fn spec_new_coor(x: int, y: int, c: int, r: int) -> Seq<(int, int)> {
    Seq::new(4, |k: int| (x + fig_row(c, r)[k].0, y + fig_row(c, r)[k].1))
}

/// The model of a freshly placed figure.
pub open spec fn spec_figure(x: int, y: int, c: int, r: int) -> (Seq<(int, int)>, int, int) {
    (spec_new_coor(x, y, c, r), c, r)
}

/// The rotation index after one rotation: the next of the four, cyclically.
pub open spec fn next_rot(r: int) -> int {
    if 0 <= r < 3 {
        r + 1
    } else {
        0
    }
}

/// The leftmost column of the figure's cells, capped at the grid width.
pub open spec fn min_col(coor: Seq<(int, int)>) -> int {
    vstd::math::min(
        GRID_WIDTH as int,
        vstd::math::min(
            vstd::math::min(vstd::math::min(coor[0].0, coor[1].0), coor[2].0),
            coor[3].0,
        ),
    )
}

/// The topmost row of the figure's cells, capped at the grid height.
pub open spec fn min_row(coor: Seq<(int, int)>) -> int {
    vstd::math::min(
        GRID_HEIGHT as int,
        vstd::math::min(
            vstd::math::min(vstd::math::min(coor[0].1, coor[1].1), coor[2].1),
            coor[3].1,
        ),
    )
}

/// The model of a figure after one rotation: the next rotation of the same
/// shape, re-based at the top-left corner of the old cells.
pub open spec fn spec_rotate(m: (Seq<(int, int)>, int, int)) -> (Seq<(int, int)>, int, int) {
    spec_figure(min_col(m.0), min_row(m.0), m.1, next_rot(m.2))
}

impl Figure {
    /// A figure of shape `color` in rotation `rotate`, based at `(x, y)`.
    pub fn new(x: i32, y: usize, color: usize, rotate: usize) -> (r: Self)
        requires
            color < SHAPES,
            rotate < 4,
            x + 3 <= i32::MAX,
            y + 3 <= usize::MAX,
        ensures
            fig_model(r) == spec_figure(x as int, y as int, color as int, rotate as int),
            r.shape == (color, rotate),
    {
        let row = figure_row(color, rotate);
        let r = Self {
            shape: (color, rotate),
            coor: [
                (x + row[0].0, y + row[0].1),
                (x + row[1].0, y + row[1].1),
                (x + row[2].0, y + row[2].1),
                (x + row[3].0, y + row[3].1),
            ],
        };
        assert(fig_coor(r) =~= spec_new_coor(x as int, y as int, color as int, rotate as int));
        r
    }

    /// The figure moved by `shift` columns and rows.
    pub fn shift(&self, shift: (i32, usize)) -> (r: Self)
        requires
            forall|k: int|
                0 <= k < 4 ==> i32::MIN <= (#[trigger] self.coor@[k]).0 + shift.0 <= i32::MAX,
            forall|k: int| 0 <= k < 4 ==> (#[trigger] self.coor@[k]).1 + shift.1 <= usize::MAX,
        ensures
            r.shape == self.shape,
            fig_coor(r) == Seq::new(
                4,
                |k: int| (fig_coor(*self)[k].0 + shift.0, fig_coor(*self)[k].1 + shift.1),
            ),
    {
        let r = Self {
            shape: self.shape,
            coor: [
                (self.coor[0].0 + shift.0, self.coor[0].1 + shift.1),
                (self.coor[1].0 + shift.0, self.coor[1].1 + shift.1),
                (self.coor[2].0 + shift.0, self.coor[2].1 + shift.1),
                (self.coor[3].0 + shift.0, self.coor[3].1 + shift.1),
            ],
        };
        assert(fig_coor(r) =~= Seq::new(
            4,
            |k: int| (fig_coor(*self)[k].0 + shift.0, fig_coor(*self)[k].1 + shift.1),
        ));
        r
    }

    /// The figure rotated once: the next rotation of its shape, re-based at
    /// the top-left corner of its current cells.
    pub fn rotate(&self) -> (r: Self)
        requires
            self.shape.0 < SHAPES,
        ensures
            fig_model(r) == spec_rotate(fig_model(*self)),
            r.shape.0 == self.shape.0,
    {
        let rotate = if self.shape.1 < 3 {
            self.shape.1 + 1
        } else {
            0
        };
        let mut x: i32 = GRID_WIDTH as i32;
        let mut y: usize = GRID_HEIGHT;
        let coor = self.coor;
        if x > coor[0].0 {
            x = coor[0].0;
        }
        if y > coor[0].1 {
            y = coor[0].1;
        }
        if x > coor[1].0 {
            x = coor[1].0;
        }
        if y > coor[1].1 {
            y = coor[1].1;
        }
        if x > coor[2].0 {
            x = coor[2].0;
        }
        if y > coor[2].1 {
            y = coor[2].1;
        }
        if x > coor[3].0 {
            x = coor[3].0;
        }
        if y > coor[3].1 {
            y = coor[3].1;
        }
        assert(x as int == min_col(fig_coor(*self)));
        assert(y as int == min_row(fig_coor(*self)));
        Self::new(x, y, self.shape.0, rotate)
    }
}

impl Default for Figure {
    /// A placeholder figure: four cells at the origin, shape 0, rotation 0.
    fn default() -> (r: Self)
        ensures
            fig_model(r) == (Seq::new(4, |k: int| (0int, 0int)), 0int, 0int),
    {
        let r = Figure { coor: [(0, 0), (0, 0), (0, 0), (0, 0)], shape: (0, 0) };
        assert(fig_coor(r) =~= Seq::new(4, |k: int| (0int, 0int)));
        r
    }
}

/// Every offset in the shape table lies in the 4-by-4 square.
pub proof fn lemma_fig_row_bounds(c: int, r: int)
    requires
        0 <= c < SHAPES,
        0 <= r < 4,
    ensures
        fig_row(c, r).len() == 4,
        forall|k: int|
            0 <= k < 4 ==> 0 <= (#[trigger] fig_row(c, r)[k]).0 <= 3 && 0 <= fig_row(c, r)[k].1
                <= 3,
{
}

/// Within bounds, the shape table's offsets are non-negative and each row
/// of the table touches column 0 and row 0, so a fresh figure's top-left
/// corner is its base point.
pub proof fn lemma_base_corner(x: int, y: int, c: int, r: int)
    requires
        0 <= c < SHAPES,
        0 <= r < 4,
        x <= GRID_WIDTH,
        0 <= y <= GRID_HEIGHT,
    ensures
        min_col(spec_new_coor(x, y, c, r)) == x,
        min_row(spec_new_coor(x, y, c, r)) == y,
{
}

/// Rotating a placed figure four times returns it exactly to its original
/// cells, shape and rotation; the rotation index cycles through all four
/// states on the way.
pub proof fn lemma_rotate_cycle(x: int, y: int, c: int, r: int)
    requires
        0 <= c < SHAPES,
        0 <= r < 4,
        x <= GRID_WIDTH,
        0 <= y <= GRID_HEIGHT,
    ensures
        spec_rotate(spec_rotate(spec_rotate(spec_rotate(spec_figure(x, y, c, r)))))
            == spec_figure(x, y, c, r),
        spec_rotate(spec_figure(x, y, c, r)) == spec_figure(x, y, c, next_rot(r)),
{
    let r1 = next_rot(r);
    let r2 = next_rot(r1);
    let r3 = next_rot(r2);
    lemma_base_corner(x, y, c, r);
    lemma_base_corner(x, y, c, r1);
    lemma_base_corner(x, y, c, r2);
    lemma_base_corner(x, y, c, r3);
    assert(next_rot(r3) == r);
    assert(spec_rotate(spec_figure(x, y, c, r)) == spec_figure(x, y, c, r1));
    assert(spec_rotate(spec_figure(x, y, c, r1)) == spec_figure(x, y, c, r2));
    assert(spec_rotate(spec_figure(x, y, c, r2)) == spec_figure(x, y, c, r3));
    assert(spec_rotate(spec_figure(x, y, c, r3)) == spec_figure(x, y, c, r));
}

/// The shape of the next figure, drawn at random.
pub struct Next(usize);

impl Next {
    /// The drawn shape index, always one of the seven shapes.
    pub closed spec fn shape(&self) -> int {
        self.0 as int
    }

    /// The drawn shape index.
    pub fn get(&self) -> (r: usize)
        ensures
            r == self.shape(),
    {
        self.0
    }

    /// A 4-by-4 preview holding the shape in its first rotation: exactly
    /// the shape's cells are set, to the shape's own index.
    #[verifier::loop_isolation(false)]
    pub fn draw(&self) -> (r: [[Option<usize>; 4]; 4])
        requires
            self.shape() < SHAPES,
        ensures
            forall|i: int, j: int|
                0 <= i < 4 && 0 <= j < 4 ==> #[trigger] r@[i]@[j] == (if fig_row(
                    self.shape(),
                    0,
                ).contains((j, i)) {
                    Some(self.shape() as usize)
                } else {
                    None::<usize>
                }),
    {
        let mut next: [[Option<usize>; 4]; 4] = [[None; 4]; 4];
        let row = figure_row(self.0, 0);
        assert forall|i: int, j: int| 0 <= i < 4 && 0 <= j < 4 implies #[trigger] next@[i]@[j]
            is None by {
        }
        let ghost offs = fig_row(self.shape(), 0);
        for k in 0..4usize
            invariant
                forall|t: int|
                    0 <= t < 4 ==> ((#[trigger] row@[t]).0 as int, row@[t].1 as int) == offs[t],
                forall|t: int| 0 <= t < 4 ==> 0 <= (#[trigger] row@[t]).0 <= 3 && row@[t].1 <= 3,
                next@.len() == 4,
                forall|i: int| 0 <= i < 4 ==> (#[trigger] next@[i])@.len() == 4,
                forall|i: int, j: int|
                    0 <= i < 4 && 0 <= j < 4 ==> #[trigger] next@[i]@[j] == (if offs.take(
                        k as int,
                    ).contains((j, i)) {
                        Some(self.0)
                    } else {
                        None::<usize>
                    }),
        {
            let (x, y) = row[k];
            let ghost before = next@;
            next[y][x as usize] = Some(self.0);
            assert forall|i: int, j: int| 0 <= i < 4 && 0 <= j < 4 implies #[trigger] next@[i]@[j]
                == (if offs.take(k + 1).contains((j, i)) {
                Some(self.0)
            } else {
                None::<usize>
            }) by {
                assert(offs.take(k + 1) =~= offs.take(k as int).push(offs[k as int]));
                if (j, i) == offs[k as int] {
                    assert(offs.take(k + 1)[k as int] == (j, i));
                    assert(offs.take(k + 1).contains((j, i)));
                } else if offs.take(k as int).contains((j, i)) {
                    let t = choose|t: int| 0 <= t < k && #[trigger] offs.take(k as int)[t] == (j, i);
                    assert(offs.take(k + 1)[t] == (j, i));
                } else if offs.take(k + 1).contains((j, i)) {
                    let t = choose|t: int| 0 <= t < k + 1 && #[trigger] offs.take(k + 1)[t] == (j, i);
                    assert(t == k);
                }
            }
        }
        proof {
            assert(offs.take(4) =~= offs);
        }
        next
    }
}

impl Default for Next {
    /// Draw the shape of the next figure at random; every outcome is one
    /// of the seven shapes.
    fn default() -> (r: Self)
        ensures
            0 <= r.shape() < SHAPES,
    {
        Next(random::random_index(SHAPES))
    }
}

/// The playfield: the locked cells, row by row from the top.
pub struct Grid(pub Vec<Vec<Option<usize>>>);

impl Default for Grid {
    /// A blank playfield of the standard dimensions.
    fn default() -> (r: Self)
        ensures
            grid::rows_view(r.0) == grid::blanks(GRID_HEIGHT as int, GRID_WIDTH as int),
    {
        Grid(grid::blank_grid(GRID_WIDTH, GRID_HEIGHT))
    }
}

impl Grid {
    /// The playfield with the given figure overlaid in its shape's colour.
    pub fn draw(&self, curr: &Figure) -> (r: Vec<Vec<Option<usize>>>)
        requires
            grid::cells_in(grid::rows_view(self.0), fig_coor(*curr)),
        ensures
            grid::rows_view(r) == grid::write_prefix(
                grid::rows_view(self.0),
                fig_coor(*curr),
                curr.shape.0,
                4,
            ),
    {
        grid::draw_cells(&self.0, &curr.coor, curr.shape.0)
    }

    /// The candidate figure back unchanged when all four of its cells lie
    /// inside the grid on unoccupied cells, and nothing otherwise.
    pub fn check(&self, temp: Figure) -> (r: Option<Figure>)
        ensures
            r == (if grid::fits(grid::rows_view(self.0), fig_coor(temp)) {
                Some(temp)
            } else {
                None::<Figure>
            }),
    {
        if grid::check_cells(&self.0, &temp.coor) {
            Some(temp)
        } else {
            None
        }
    }

    /// The indices of the fully occupied rows, in ascending order.
    pub fn find_full_line(&self) -> (r: Vec<usize>)
        ensures
            grid::idxs_view(r@) == grid::full_lines(
                grid::rows_view(self.0),
                grid::rows_view(self.0).len() as int,
            ),
    {
        grid::find_full_lines(&self.0)
    }
}

} // verus!

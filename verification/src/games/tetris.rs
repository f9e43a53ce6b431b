//! The whole Tetris game state and its per-tick step: the playfield, the
//! falling figure, the upcoming shape and the score. A tick clears the
//! full rows, then drops the figure one row; a figure that can no longer
//! drop is locked into the grid, and a lock that reaches the top row ends
//! the game.

use crate::grid;
use crate::models::fig_model;
use crate::models::spec_figure;
use crate::models::spec_level;
use crate::models::spec_rotate;
use crate::models::Figure;
use crate::models::Grid;
use crate::models::Next;
use crate::models::Score;
use crate::models::GRID_HEIGHT;
use crate::models::GRID_WIDTH;
use crate::models::SHAPES;
use vstd::prelude::*;

verus! {

/// The column a fresh figure spawns at, on the top row.
pub const SPAWN_COL: i32 = 10;

/// A figure model moved by `d` columns and rows.
pub open spec fn moved(m: (Seq<(int, int)>, int, int), d: (int, int)) -> (
    Seq<(int, int)>,
    int,
    int,
) {
    (Seq::new(4, |k: int| (m.0[k].0 + d.0, m.0[k].1 + d.1)), m.1, m.2)
}

/// Whether locking this figure loses the game: one of its cells sits on
/// the top row.
pub open spec fn lock_loss(m: (Seq<(int, int)>, int, int)) -> bool {
    exists|k: int| 0 <= k < 4 && (#[trigger] m.0[k]).1 == 0
}

/// The grid after locking the figure: its cells written in order with its
/// shape index, stopping at the first cell on the top row.
pub open spec fn locked_grid(
    g: Seq<Seq<Option<usize>>>,
    m: (Seq<(int, int)>, int, int),
) -> Seq<Seq<Option<usize>>> {
    grid::write_prefix(g, m.0, m.1 as usize, grid::first_blocked(m.0, 0))
}

/// The grid after a line clear: as many blank rows on top as there were
/// full rows, then the surviving rows in order.
pub open spec fn cleared(g: Seq<Seq<Option<usize>>>) -> Seq<Seq<Option<usize>>> {
    grid::blanks(grid::count_full(g, g.len() as int), GRID_WIDTH as int) + grid::surviving(g)
}

/// The full state of a Tetris game.
pub struct Model {
    score: Score,
    grid: Grid,
    curr: Figure,
    next: Next,
}

impl Model {
    /// The playfield's rows.
    pub closed spec fn grid_v(&self) -> Seq<Seq<Option<usize>>> {
        grid::rows_view(self.grid.0)
    }

    /// The falling figure's model: cells, shape, rotation.
    pub closed spec fn curr_m(&self) -> (Seq<(int, int)>, int, int) {
        fig_model(self.curr)
    }

    /// The falling figure itself, for proofs within this module.
    closed spec fn curr_spec(&self) -> Figure {
        self.curr
    }

    /// The shape drawn for the next figure.
    pub closed spec fn next_shape(&self) -> int {
        self.next.shape()
    }

    /// The number of cleared lines.
    pub closed spec fn lines(&self) -> int {
        self.score.lines()
    }

    /// The level tier.
    pub closed spec fn level(&self) -> int {
        self.score.level()
    }

    /// Well-formedness: the playfield has its standard dimensions, the
    /// falling figure lies inside it, and the shape indices are in range.
    pub open spec fn wf(&self) -> bool {
        &&& self.grid_v().len() == GRID_HEIGHT
        &&& (forall|i: int|
            0 <= i < GRID_HEIGHT ==> (#[trigger] self.grid_v()[i]).len() == GRID_WIDTH)
        &&& grid::cells_in(self.grid_v(), self.curr_m().0)
        &&& 0 <= self.curr_m().1 < SHAPES
        &&& 0 <= self.next_shape() < SHAPES
    }

    /// The line count and the level, in that order.
    pub fn score(&self) -> (r: (i32, u64))
        ensures
            r.0 == self.lines(),
            r.1 == self.level(),
    {
        self.score.get()
    }

    /// Reset the playfield to blank.
    pub fn set_grid(&mut self)
        requires
            old(self).wf(),
        ensures
            final(self).wf(),
            final(self).grid_v() == grid::blanks(GRID_HEIGHT as int, GRID_WIDTH as int),
            final(self).curr_m() == old(self).curr_m(),
            final(self).next_shape() == old(self).next_shape(),
            final(self).lines() == old(self).lines(),
            final(self).level() == old(self).level(),
    {
        proof {
            lemma_wf_coor_bounds(self);
        }
        self.grid = Grid::default();
        proof {
            lemma_cells_in_blank(self.curr_m().0);
        }
    }

    /// Replace the falling figure by a fresh one of the upcoming shape,
    /// spawned at the top, and draw a new upcoming shape at random.
    pub fn next(&mut self)
        requires
            old(self).wf(),
        ensures
            final(self).wf(),
            final(self).curr_m() == spec_figure(SPAWN_COL as int, 0, old(self).next_shape(), 0),
            0 <= final(self).next_shape() < SHAPES,
            final(self).grid_v() == old(self).grid_v(),
            final(self).lines() == old(self).lines(),
            final(self).level() == old(self).level(),
    {
        self.curr = Figure::new(SPAWN_COL, 0, self.next.get(), 0);
        self.next = Next::default();
        proof {
            lemma_spawn_in_grid(self.grid_v(), self.curr_m().1);
        }
    }

    /// Move the falling figure by `direction` when the moved figure still
    /// fits the grid; otherwise leave everything unchanged.
    pub fn shift(&mut self, direction: (i32, usize))
        requires
            old(self).wf(),
            direction.0 <= i32::MAX - (GRID_WIDTH as i32),
            direction.1 <= usize::MAX - GRID_HEIGHT,
        ensures
            final(self).wf(),
            grid::fits(
                old(self).grid_v(),
                moved(old(self).curr_m(), (direction.0 as int, direction.1 as int)).0,
            ) ==> final(self).curr_m() == moved(
                old(self).curr_m(),
                (direction.0 as int, direction.1 as int),
            ),
            !grid::fits(
                old(self).grid_v(),
                moved(old(self).curr_m(), (direction.0 as int, direction.1 as int)).0,
            ) ==> final(self).curr_m() == old(self).curr_m(),
            final(self).grid_v() == old(self).grid_v(),
            final(self).next_shape() == old(self).next_shape(),
            final(self).lines() == old(self).lines(),
            final(self).level() == old(self).level(),
    {
        proof {
            lemma_wf_coor_bounds(self);
            assert forall|k: int|
                0 <= k < 4 implies i32::MIN <= (#[trigger] self.curr.coor@[k]).0 + direction.0
                    <= i32::MAX && self.curr.coor@[k].1 + direction.1 <= usize::MAX by {
                assert(fig_model(self.curr_spec()).0[k] == (
                    self.curr.coor@[k].0 as int,
                    self.curr.coor@[k].1 as int,
                ));
            }
        }
        let cand = self.curr.shift(direction);
        proof {
            assert(fig_model(cand).0 =~= moved(
                self.curr_m(),
                (direction.0 as int, direction.1 as int),
            ).0);
        }
        if let Some(temp) = self.grid.check(cand) {
            self.curr = temp;
        }
    }

    /// Rotate the falling figure when the rotated figure still fits the
    /// grid; otherwise leave everything unchanged.
    pub fn rotate(&mut self)
        requires
            old(self).wf(),
        ensures
            final(self).wf(),
            grid::fits(old(self).grid_v(), spec_rotate(old(self).curr_m()).0) ==> final(self).curr_m() == spec_rotate(old(self).curr_m()),
            !grid::fits(old(self).grid_v(), spec_rotate(old(self).curr_m()).0) ==> final(self).curr_m() == old(self).curr_m(),
            final(self).grid_v() == old(self).grid_v(),
            final(self).next_shape() == old(self).next_shape(),
            final(self).lines() == old(self).lines(),
            final(self).level() == old(self).level(),
    {
        let cand = self.curr.rotate();
        if let Some(temp) = self.grid.check(cand) {
            self.curr = temp;
        }
    }

    /// Drop the falling figure one row. When it cannot drop it is locked
    /// into the grid instead and the next figure spawns; returns `false`
    /// exactly when locking touched the top row, which loses the game.
    pub fn down(&mut self) -> (r: bool)
        requires
            old(self).wf(),
        ensures
            final(self).wf(),
            grid::fits(old(self).grid_v(), moved(old(self).curr_m(), (0, 1)).0) ==> r && final(self).curr_m() == moved(old(self).curr_m(), (0, 1)) && final(self).grid_v() == old(self).grid_v() && final(self).next_shape() == old(self).next_shape(),
            !grid::fits(old(self).grid_v(), moved(old(self).curr_m(), (0, 1)).0) ==> {
                &&& final(self).grid_v() == locked_grid(old(self).grid_v(), old(self).curr_m())
                &&& (r <==> !lock_loss(old(self).curr_m()))
                &&& (r ==> final(self).curr_m() == spec_figure(
                    SPAWN_COL as int,
                    0,
                    old(self).next_shape(),
                    0,
                ) && 0 <= final(self).next_shape() < SHAPES)
                &&& (!r ==> final(self).curr_m() == old(self).curr_m() && final(self).next_shape()
                    == old(self).next_shape())
            },
            final(self).lines() == old(self).lines(),
            final(self).level() == old(self).level(),
    {
        proof {
            lemma_wf_coor_bounds(self);
            assert forall|k: int|
                0 <= k < 4 implies i32::MIN <= (#[trigger] self.curr.coor@[k]).0 + 0 <= i32::MAX
                    && self.curr.coor@[k].1 + 1 <= usize::MAX by {
                assert(fig_model(self.curr_spec()).0[k] == (
                    self.curr.coor@[k].0 as int,
                    self.curr.coor@[k].1 as int,
                ));
            }
        }
        let cand = self.curr.shift((0, 1));
        proof {
            assert(fig_model(cand).0 =~= moved(self.curr_m(), (0, 1)).0);
        }
        if let Some(temp) = self.grid.check(cand) {
            self.curr = temp;
            true
        } else {
            proof {
                grid::lemma_first_blocked_range(self.curr_m().0, 0);
                grid::lemma_write_prefix_shape(
                    self.grid_v(),
                    self.curr_m().0,
                    self.curr.shape.0,
                    grid::first_blocked(self.curr_m().0, 0),
                );
            }
            let ok = grid::lock_cells(&mut self.grid.0, &self.curr.coor, self.curr.shape.0);
            if ok {
                self.next();
                true
            } else {
                false
            }
        }
    }

    /// One tick of play: clear every full row (each exactly once, scoring
    /// one line apiece), then drop the figure one row. Returns `false`
    /// exactly when the drop locked the figure against the top row; on
    /// survival the level is re-derived from the new line count.
    pub fn play(&mut self) -> (r: bool)
        requires
            old(self).wf(),
            old(self).lines() <= i32::MAX - (GRID_HEIGHT as i32),
        ensures
            final(self).wf(),
            final(self).lines() == old(self).lines() + grid::count_full(
                old(self).grid_v(),
                GRID_HEIGHT as int,
            ),
            r ==> final(self).level() == spec_level(final(self).lines()),
            !r ==> final(self).level() == old(self).level(),
            grid::fits(cleared(old(self).grid_v()), moved(old(self).curr_m(), (0, 1)).0) ==> r
                && final(self).grid_v() == cleared(old(self).grid_v()) && final(self).curr_m()
                == moved(old(self).curr_m(), (0, 1)) && final(self).next_shape() == old(self).next_shape(),
            !grid::fits(cleared(old(self).grid_v()), moved(old(self).curr_m(), (0, 1)).0) ==> {
                &&& final(self).grid_v() == locked_grid(
                    cleared(old(self).grid_v()),
                    old(self).curr_m(),
                )
                &&& (r <==> !lock_loss(old(self).curr_m()))
                &&& (r ==> final(self).curr_m() == spec_figure(
                    SPAWN_COL as int,
                    0,
                    old(self).next_shape(),
                    0,
                ))
                &&& (!r ==> final(self).curr_m() == old(self).curr_m() && final(self).next_shape()
                    == old(self).next_shape())
            },
    {
        proof {
            grid::lemma_count_full_bound(self.grid_v(), GRID_HEIGHT as int);
        }
        proof {
            lemma_wf_coor_bounds(self);
        }
        let n = grid::clear_lines(&mut self.grid.0, GRID_WIDTH);
        proof {
            grid::lemma_surviving_widths(old(self).grid_v(), GRID_WIDTH as int);
            assert(self.grid_v() == grid::blanks(n as int, GRID_WIDTH as int) + grid::surviving(
                old(self).grid_v(),
            ));
            assert(grid::blanks(n as int, GRID_WIDTH as int).len() == n);
            assert(self.grid_v().len() == GRID_HEIGHT);
            assert forall|i: int|
                0 <= i < GRID_HEIGHT implies (#[trigger] self.grid_v()[i]).len()
                    == GRID_WIDTH by {
                if i < n as int {
                    assert(self.grid_v()[i] == grid::blanks(n as int, GRID_WIDTH as int)[i]);
                    assert(self.grid_v()[i] == grid::blank_row_s(GRID_WIDTH as int));
                } else {
                    assert(self.grid_v()[i] == grid::surviving(old(self).grid_v())[i - n]);
                }
            }
            assert forall|k: int|
                0 <= k < 4 implies grid::cell_in(
                self.grid_v(),
                #[trigger] self.curr_m().0[k],
            ) by {}
            assert(self.wf());
        }
        let ghost midg = self.grid_v();
        let ghost cm0 = self.curr_m();
        let ghost ns0 = self.next_shape();
        let ghost l0 = self.lines();
        let ghost lv0 = self.level();
        for i in 0..n
            invariant
                self.lines() == l0 + i,
                self.lines() <= i32::MAX,
                l0 + n <= i32::MAX,
                self.level() == lv0,
                self.grid_v() == midg,
                self.curr_m() == cm0,
                self.next_shape() == ns0,
                self.wf(),
        {
            self.score.inc();
        }
        if !self.down() {
            return false;
        }
        self.score.update();
        true
    }

    /// The playfield with the falling figure overlaid: what the screen
    /// shows. Each of the figure's cells carries its shape index; every
    /// other cell is as the grid has it.
    pub fn field(&self) -> (r: Vec<Vec<Option<usize>>>)
        requires
            self.wf(),
        ensures
            grid::rows_view(r) == grid::write_prefix(
                self.grid_v(),
                self.curr_m().0,
                self.curr_m().1 as usize,
                4,
            ),
    {
        self.grid.draw(&self.curr)
    }

    /// The 4-by-4 preview of the upcoming shape.
    pub fn preview(&self) -> (r: [[Option<usize>; 4]; 4])
        requires
            self.wf(),
        ensures
            forall|i: int, j: int|
                0 <= i < 4 && 0 <= j < 4 ==> #[trigger] r@[i]@[j] == (if crate::models::fig_row(
                    self.next_shape(),
                    0,
                ).contains((j, i)) {
                    Some(self.next_shape() as usize)
                } else {
                    None::<usize>
                }),
    {
        self.next.draw()
    }
}

impl Default for Model {
    /// A fresh game: blank playfield, zero score, a placeholder figure at
    /// the origin and a random upcoming shape.
    fn default() -> (r: Self)
        ensures
            r.wf(),
            r.grid_v() == grid::blanks(GRID_HEIGHT as int, GRID_WIDTH as int),
            r.lines() == 0,
            r.level() == 0,
    {
        let r = Model {
            score: Score::default(),
            grid: Grid::default(),
            curr: Figure::default(),
            next: Next::default(),
        };
        proof {
            assert forall|k: int|
                0 <= k < 4 implies (#[trigger] fig_model(r.curr).0[k]) == (0int, 0int) by {}
            lemma_cells_in_blank(fig_model(r.curr).0);
        }
        r
    }
}

/// A figure whose cells lie within the standard dimensions fits inside
/// the blank playfield's bounds.
proof fn lemma_cells_in_blank(coor: Seq<(int, int)>)
    requires
        forall|k: int|
            0 <= k < coor.len() ==> 0 <= (#[trigger] coor[k]).0 < GRID_WIDTH && 0 <= coor[k].1
                < GRID_HEIGHT,
    ensures
        grid::cells_in(grid::blanks(GRID_HEIGHT as int, GRID_WIDTH as int), coor),
{
}

/// In a well-formed model the falling figure's cells lie within the
/// standard dimensions.
proof fn lemma_wf_coor_bounds(m: &Model)
    requires
        m.wf(),
    ensures
        forall|k: int|
            0 <= k < 4 ==> 0 <= (#[trigger] fig_model(m.curr_spec()).0[k]).0 < GRID_WIDTH && 0 <= (
            fig_model(m.curr_spec()).0[k]).1 < GRID_HEIGHT,
{
    assert forall|k: int|
        0 <= k < 4 implies 0 <= (#[trigger] fig_model(m.curr_spec()).0[k]).0 < GRID_WIDTH && 0 <= (
    fig_model(m.curr_spec()).0[k]).1 < GRID_HEIGHT by {
        assert(grid::cell_in(m.grid_v(), m.curr_m().0[k]));
        assert(m.grid_v()[m.curr_m().0[k].1].len() == GRID_WIDTH);
    }
}

/// A figure spawned at the top of a well-formed grid lies inside it.
proof fn lemma_spawn_in_grid(g: Seq<Seq<Option<usize>>>, c: int)
    requires
        g.len() == GRID_HEIGHT,
        forall|i: int| 0 <= i < GRID_HEIGHT ==> (#[trigger] g[i]).len() == GRID_WIDTH,
        0 <= c < SHAPES,
    ensures
        grid::cells_in(g, crate::models::spec_new_coor(SPAWN_COL as int, 0, c, 0)),
{
    crate::models::lemma_fig_row_bounds(c, 0);
}

} // verus!

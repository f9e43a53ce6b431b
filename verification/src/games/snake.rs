//! The whole Snake game state and its per-tick step: the snake, the apple
//! and the score over the fixed 54-by-30 field. A tick moves the snake one
//! cell; eating the apple grows the snake and places a fresh apple, and
//! running into the body ends the game.

use crate::grid;
use crate::models::snake::contains_cell;
use crate::snake_model::next_head;
use crate::snake_model::spec_level;
use crate::snake_model::Apple;
use crate::snake_model::Score;
use crate::snake_model::Snake;
use crate::snake_model::FIELD_HEIGHT;
use crate::snake_model::FIELD_WIDTH;
use vstd::prelude::*;

verus! {

/// The colour index the apple is rendered with.
pub const APPLE_COLOR: usize = 7;

/// The full state of a Snake game.
pub struct Model {
    snake: Snake,
    score: Score,
    apple: Apple,
}

impl Model {
    /// The snake's body cells, head first.
    pub closed spec fn body(&self) -> Seq<(i32, i32)> {
        self.snake.body@
    }

    /// The snake's direction.
    pub closed spec fn dir(&self) -> (int, int) {
        (self.snake.direction.0 as int, self.snake.direction.1 as int)
    }

    /// The apple's cell.
    pub closed spec fn apple_at(&self) -> (int, int) {
        (self.apple.0 as int, self.apple.1 as int)
    }

    /// The number of apples eaten.
    pub closed spec fn apples(&self) -> int {
        self.score.apples()
    }

    /// The level tier.
    pub closed spec fn tier(&self) -> int {
        self.score.tier()
    }

    /// The cell the snake's head moves to next.
    pub closed spec fn head_next(&self) -> (int, int) {
        next_head(self.snake)
    }

    /// Well-formedness: a non-empty snake on the field, moving one cell
    /// per tick at most, the apple on the field, the tier in its range.
    pub open spec fn wf(&self) -> bool {
        &&& self.body().len() >= 1
        &&& (forall|k: int|
            0 <= k < self.body().len() ==> 0 <= (#[trigger] self.body()[k]).0 < FIELD_WIDTH && 0
                <= self.body()[k].1 < FIELD_HEIGHT)
        &&& -1 <= self.dir().0 <= 1
        &&& -1 <= self.dir().1 <= 1
        &&& 0 <= self.apple_at().0 < FIELD_WIDTH
        &&& 0 <= self.apple_at().1 < FIELD_HEIGHT
        &&& 0 <= self.tier() <= 3
    }

    /// The number of apples eaten and the level, for the caller's pacing.
    pub fn level(&self) -> (r: u64)
        ensures
            r == self.tier(),
    {
        self.score.level()
    }

    /// Turn the snake: the new direction is taken unless it repeats or
    /// exactly reverses the current one.
    pub fn direction(&mut self, x: i32, y: i32)
        requires
            old(self).wf(),
            -1 <= x <= 1,
            -1 <= y <= 1,
        ensures
            final(self).wf(),
            final(self).body() == old(self).body(),
            final(self).apple_at() == old(self).apple_at(),
            final(self).apples() == old(self).apples(),
            final(self).tier() == old(self).tier(),
            final(self).dir() == (if (old(self).dir().0 != x || old(self).dir().1 != y) && (old(self).dir().0 != -x || old(self).dir().1 != -y) {
                (x as int, y as int)
            } else {
                old(self).dir()
            }),
    {
        self.snake.direction(x, y);
    }

    /// Place a fresh apple on a cell the snake does not occupy: a random
    /// cell when it is free, else the first free cell in row order. When
    /// every cell of the apple's range is occupied the apple stays put.
    #[verifier::loop_isolation(false)]
    pub fn set_apple(&mut self)
        requires
            old(self).wf(),
        ensures
            final(self).wf(),
            final(self).body() == old(self).body(),
            final(self).dir() == old(self).dir(),
            final(self).apples() == old(self).apples(),
            final(self).tier() == old(self).tier(),
            (exists|x: int, y: int|
                0 <= x < FIELD_WIDTH && 0 <= y < FIELD_HEIGHT - 1 && !(#[trigger] old(self).body().contains(((x as i32, y as i32))))) ==> !final(self).body().contains(
                ((final(self).apple_at().0 as i32, final(self).apple_at().1 as i32)),
            ) && 0 <= final(self).apple_at().0 < FIELD_WIDTH && 0 <= final(self).apple_at().1
                < FIELD_HEIGHT - 1,
            !(exists|x: int, y: int|
                0 <= x < FIELD_WIDTH && 0 <= y < FIELD_HEIGHT - 1 && !(#[trigger] old(self).body().contains(((x as i32, y as i32))))) ==> final(self).apple_at() == old(self).apple_at(),
    {
        let a = Apple::default();
        if !contains_cell(&self.snake.body, a.0, a.1) {
            self.apple = a;
            return;
        }
        let mut y: i32 = 0;
        while y < FIELD_HEIGHT - 1
            invariant
                0 <= y <= FIELD_HEIGHT - 1,
                *self == *old(self),
                forall|i: int, j: int|
                    0 <= j < FIELD_WIDTH && 0 <= i < y ==> #[trigger] self.body().contains(((j as i32, i as i32))),
            decreases FIELD_HEIGHT - 1 - y,
        {
            let mut x: i32 = 0;
            while x < FIELD_WIDTH
                invariant
                    0 <= x <= FIELD_WIDTH,
                    0 <= y < FIELD_HEIGHT - 1,
                    *self == *old(self),
                    forall|i: int, j: int|
                        0 <= j < FIELD_WIDTH && 0 <= i < y ==> #[trigger] self.body().contains(((j as i32, i as i32))),
                    forall|j: int|
                        0 <= j < x ==> #[trigger] self.body().contains(((j as i32, y as i32))),
                decreases FIELD_WIDTH - x,
            {
                if !contains_cell(&self.snake.body, x, y) {
                    self.apple = Apple(x, y);
                    return;
                }
                x = x + 1;
            }
            y = y + 1;
        }
    }

    /// One tick of play: the head advances one cell, wrapping at the
    /// edges. Landing on the body ends the game and changes nothing else.
    /// Landing on the apple grows the snake by one cell, scores the apple
    /// and places a fresh one; any other landing just moves the snake.
    /// The level is re-derived after every surviving move.
    pub fn tick(&mut self) -> (r: bool)
        requires
            old(self).wf(),
            old(self).apples() < i32::MAX - 1,
        ensures
            final(self).wf(),
            r <==> !old(self).body().contains(
                ((old(self).head_next().0 as i32, old(self).head_next().1 as i32)),
            ),
            !r ==> final(self).body() == old(self).body() && final(self).apple_at() == old(self).apple_at() && final(self).apples() == old(self).apples() && final(self).tier()
                == old(self).tier(),
            r && old(self).head_next() == old(self).apple_at() ==> {
                &&& final(self).body() == seq![
                    (old(self).head_next().0 as i32, old(self).head_next().1 as i32),
                ] + old(self).body()
                &&& final(self).apples() == old(self).apples() + 1
                &&& final(self).tier() == spec_level(old(self).apples() + 1)
                &&& ((exists|x: int, y: int|
                    0 <= x < FIELD_WIDTH && 0 <= y < FIELD_HEIGHT - 1 && !(#[trigger] final(self).body().contains(((x as i32, y as i32))))) ==> !final(self).body().contains(
                    ((final(self).apple_at().0 as i32, final(self).apple_at().1 as i32)),
                ))
            },
            r && old(self).head_next() != old(self).apple_at() ==> {
                &&& final(self).body() == (seq![
                    (old(self).head_next().0 as i32, old(self).head_next().1 as i32),
                ] + old(self).body()).drop_last()
                &&& final(self).apples() == old(self).apples()
                &&& final(self).tier() == spec_level(old(self).apples())
                &&& final(self).apple_at() == old(self).apple_at()
            },
            final(self).dir() == old(self).dir(),
    {
        let moved = self.snake.update();
        if let Some((x, y)) = moved {
            proof {
                assert(0 <= x < FIELD_WIDTH && 0 <= y < FIELD_HEIGHT);
            }
            if x == self.apple.0 && y == self.apple.1 {
                self.set_apple();
                self.score.inc();
            } else {
                self.snake.body.pop();
                assert(self.body() =~= (seq![(x, y)] + old(self).body()).drop_last());
            }
            self.score.update();
            true
        } else {
            false
        }
    }

    /// The rendered field: the apple's cell carries the apple colour, the
    /// snake's cells carry the level tier, every other cell is empty. The
    /// snake is drawn over the apple.
    #[verifier::loop_isolation(false)]
    pub fn map(&self) -> (r: Vec<Vec<Option<usize>>>)
        requires
            self.wf(),
        ensures
            grid::rows_view(r).len() == FIELD_HEIGHT,
            forall|i: int|
                0 <= i < FIELD_HEIGHT ==> (#[trigger] grid::rows_view(r)[i]).len() == FIELD_WIDTH,
            forall|i: int, j: int|
                0 <= i < FIELD_HEIGHT && 0 <= j < FIELD_WIDTH ==> #[trigger] grid::rows_view(
                    r,
                )[i][j] == (if self.body().contains(((j as i32, i as i32))) {
                    Some(self.tier() as usize)
                } else if self.apple_at() == (j, i) {
                    Some(APPLE_COLOR)
                } else {
                    None::<usize>
                }),
    {
        let mut field = grid::blank_grid(FIELD_WIDTH as usize, FIELD_HEIGHT as usize);
        let ax = self.apple.0 as usize;
        let ay = self.apple.1 as usize;
        let ghost g0 = grid::rows_view(field);
        proof {
            assert(g0.len() == FIELD_HEIGHT);
            assert(field@[ay as int]@ == g0[ay as int]);
            assert(g0[ay as int] == grid::blank_row_s(FIELD_WIDTH as int));
        }
        field[ay][ax] = Some(APPLE_COLOR);
        assert(grid::rows_view(field) =~~= grid::write_cell(g0, self.apple_at(), APPLE_COLOR));
        assert forall|i: int, j: int|
            0 <= i < FIELD_HEIGHT && 0 <= j < FIELD_WIDTH implies #[trigger] grid::rows_view(
            field,
        )[i][j] == (if self.apple_at() == (j, i) {
            Some(APPLE_COLOR)
        } else {
            None::<usize>
        }) by {
            assert(g0[i] == grid::blank_row_s(FIELD_WIDTH as int));
            assert(g0[i][j] is None);
        }
        let color = self.score.level() as usize;
        let n = self.snake.body.len();
        let ghost body = self.body();
        for k in 0..n
            invariant
                n == body.len(),
                body == self.body(),
                color == self.tier() as usize,
                grid::rows_view(field).len() == FIELD_HEIGHT,
                forall|i: int|
                    0 <= i < FIELD_HEIGHT ==> (#[trigger] grid::rows_view(field)[i]).len()
                        == FIELD_WIDTH,
                forall|i: int, j: int|
                    0 <= i < FIELD_HEIGHT && 0 <= j < FIELD_WIDTH ==> #[trigger] grid::rows_view(
                        field,
                    )[i][j] == (if body.take(k as int).contains(((j as i32, i as i32))) {
                        Some(color)
                    } else if self.apple_at() == (j, i) {
                        Some(APPLE_COLOR)
                    } else {
                        None::<usize>
                    }),
        {
            let (x, y) = self.snake.body[k];
            let ghost before = grid::rows_view(field);
            proof {
                assert(0 <= x < FIELD_WIDTH && 0 <= y < FIELD_HEIGHT);
                assert(field@[y as int]@ == before[y as int]);
                assert(before[y as int].len() == FIELD_WIDTH);
            }
            field[y as usize][x as usize] = Some(color);
            assert(grid::rows_view(field) =~~= grid::write_cell(
                before,
                ((x as int, y as int)),
                color,
            ));
            assert forall|i: int, j: int|
                0 <= i < FIELD_HEIGHT && 0 <= j < FIELD_WIDTH implies #[trigger] grid::rows_view(
                field,
            )[i][j] == (if body.take(k + 1).contains(((j as i32, i as i32))) {
                Some(color)
            } else if self.apple_at() == (j, i) {
                Some(APPLE_COLOR)
            } else {
                None::<usize>
            }) by {
                assert(body.take(k + 1) =~= body.take(k as int).push(body[k as int]));
                let cell = (j as i32, i as i32);
                if cell == body[k as int] {
                    assert(body.take(k + 1)[k as int] == cell);
                    assert(body.take(k + 1).contains(cell));
                } else if body.take(k as int).contains(cell) {
                    let t = choose|t: int| 0 <= t < k && #[trigger] body.take(k as int)[t] == cell;
                    assert(body.take(k + 1)[t] == cell);
                } else if body.take(k + 1).contains(cell) {
                    let t = choose|t: int| 0 <= t < k + 1 && #[trigger] body.take(k + 1)[t] == cell;
                    assert(t == k);
                }
            }
        }
        proof {
            assert(body.take(n as int) =~= body);
        }
        field
    }

    /// Start a round: a fresh snake and score, and a fresh apple off the
    /// snake's body.
    pub fn start(&mut self)
        ensures
            final(self).wf(),
            final(self).body().len() == 1,
            final(self).apples() == 0,
            final(self).tier() == 0,
            !final(self).body().contains(
                ((final(self).apple_at().0 as i32, final(self).apple_at().1 as i32)),
            ),
    {
        self.score = Score::default();
        self.snake = Snake::default();
        self.apple = Apple(0, 0);
        self.set_apple_fresh();
    }

    /// Place the apple knowing the snake is a single cell: some free cell
    /// always exists then.
    fn set_apple_fresh(&mut self)
        requires
            old(self).wf(),
            old(self).body().len() == 1,
        ensures
            final(self).wf(),
            final(self).body() == old(self).body(),
            final(self).dir() == old(self).dir(),
            final(self).apples() == old(self).apples(),
            final(self).tier() == old(self).tier(),
            !final(self).body().contains(
                ((final(self).apple_at().0 as i32, final(self).apple_at().1 as i32)),
            ),
    {
        proof {
            let head = old(self).body()[0];
            let ox: int = if head.0 == 0 {
                1
            } else {
                0
            };
            let oc = (ox as i32, 0i32);
            assert(!old(self).body().contains(oc)) by {
                if old(self).body().contains(oc) {
                    let t = choose|t: int|
                        0 <= t < old(self).body().len() && #[trigger] old(self).body()[t] == oc;
                    assert(t == 0);
                }
            }
            assert(exists|x: int, y: int|
                0 <= x < FIELD_WIDTH && 0 <= y < FIELD_HEIGHT - 1 && !(#[trigger] old(self).body().contains(((x as i32, y as i32))))) by {
                assert(0 <= ox < FIELD_WIDTH && 0 <= 0 < FIELD_HEIGHT - 1 && !old(self).body().contains(((ox as i32, 0 as i32))));
            }
        }
        self.set_apple();
    }
}

impl Default for Model {
    /// A fresh game: a random one-cell snake, zero score, and an apple
    /// placed off the snake.
    fn default() -> (r: Self)
        ensures
            r.wf(),
            r.body().len() == 1,
            r.apples() == 0,
            r.tier() == 0,
    {
        let mut r = Model { snake: Snake::default(), score: Score::default(), apple: Apple(0, 0) };
        r.set_apple_fresh();
        r
    }
}

} // verus!

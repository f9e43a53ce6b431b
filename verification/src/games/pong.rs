//! The whole Pong game state and its per-tick step. A tick advances the
//! ball several cells (more at higher levels); every advance bounces the
//! ball off the field and the paddle, counts misses down and hits up, and
//! ends the game when the points fall below zero.

use crate::pong_model::spec_level;
use crate::pong_model::Ball;
use crate::pong_model::Field;
use crate::pong_model::Paddle;
use crate::pong_model::Score;
use crate::pong_model::BALL_SIZE;
use crate::pong_model::PAD;
use crate::pong_model::PADDLE_W;
use vstd::prelude::*;

verus! {

/// The bound within which a tick's arithmetic is known not to overflow:
/// positions and bounds on screen are far below it.
pub const BOUND: i32 = 0x1000_0000;

/// One advance of the ball: step one cell along each axis, reflect off
/// the field (a miss at the bottom resets the ball's height and costs a
/// point), then bounce off the paddle (a hit earns a point). The state is
/// (position, direction, (points, level)).
pub open spec fn pong_step(
    s: ((int, int), (int, int), (int, int)),
    fb: ((int, int), (int, int)),
    pd: (int, int),
) -> ((int, int), (int, int), (int, int)) {
    let p = (s.0.0 + s.1.0, s.0.1 + s.1.1);
    let d0 = if p.0 == fb.0.0 {
        1int
    } else if p.0 + BALL_SIZE == fb.0.1 {
        -1int
    } else {
        s.1.0
    };
    let d1a = if p.1 == fb.1.0 {
        1int
    } else {
        s.1.1
    };
    let miss = p.1 + BALL_SIZE == fb.1.1;
    let p1 = if miss {
        0int
    } else {
        p.1
    };
    let sc0a = if miss {
        s.2.0 - 1
    } else {
        s.2.0
    };
    let hit = pd.1 == p1 + BALL_SIZE && pd.0 <= p.0 + BALL_SIZE / 2 <= pd.0 + PADDLE_W;
    let d1 = if hit {
        -1int
    } else {
        d1a
    };
    let sc0 = if hit {
        sc0a + 1
    } else {
        sc0a
    };
    ((p.0, p1), (d0, d1), (sc0, s.2.1))
}

/// The game is lost once the points fall below zero.
pub open spec fn pong_lost(s: ((int, int), (int, int), (int, int))) -> bool {
    s.2.0 < 0
}

/// `n` advances of the ball, stopping early when the game is lost.
pub open spec fn pong_run(
    s: ((int, int), (int, int), (int, int)),
    fb: ((int, int), (int, int)),
    pd: (int, int),
    n: int,
) -> ((int, int), (int, int), (int, int))
    decreases n,
{
    if n <= 0 {
        s
    } else {
        let s1 = pong_step(s, fb, pd);
        if pong_lost(s1) {
            s1
        } else {
            pong_run(s1, fb, pd, n - 1)
        }
    }
}

/// The full state of a Pong game.
pub struct Model {
    field: Field,
    paddle: Paddle,
    ball: Ball,
    score: Score,
}

impl Model {
    /// The moving state: ball position, ball direction, (points, level).
    pub closed spec fn state(&self) -> ((int, int), (int, int), (int, int)) {
        (self.ball.pos(), self.ball.dir(), (self.score.0 as int, self.score.1 as int))
    }

    /// The field bounds, as ((left, right), (top, bottom)).
    pub closed spec fn field_b(&self) -> ((int, int), (int, int)) {
        self.field.bounds()
    }

    /// The paddle's (left, top).
    pub closed spec fn pad(&self) -> (int, int) {
        (self.paddle.x(), self.paddle.y())
    }

    /// Everything a tick reads stays comfortably below `BOUND`.
    pub open spec fn in_range(&self) -> bool {
        &&& -BOUND <= self.state().0.0 <= BOUND
        &&& -BOUND <= self.state().0.1 <= BOUND
        &&& -BOUND <= self.field_b().0.0 <= BOUND
        &&& -BOUND <= self.field_b().0.1 <= BOUND
        &&& -BOUND <= self.field_b().1.0 <= BOUND
        &&& -BOUND <= self.field_b().1.1 <= BOUND
        &&& -BOUND <= self.pad().0 <= BOUND
        &&& -BOUND <= self.pad().1 <= BOUND
        &&& 0 <= self.state().2.0 <= BOUND
        &&& 0 <= self.state().2.1 <= 3
    }

    /// Adopt the window's size: it becomes the field's right and bottom
    /// bounds, and the paddle sits two heights above the bottom.
    pub fn resize(&mut self, w: i32, h: i32)
        requires
            i32::MIN + 60 <= h,
        ensures
            final(self).field_b() == (
                (old(self).field_b().0.0, w as int),
                (old(self).field_b().1.0, h as int),
            ),
            final(self).pad() == (old(self).pad().0, h - 60),
            final(self).state() == old(self).state(),
    {
        self.field.update((w, h));
        self.paddle.set_y(h);
    }

    /// Start a round: zero score, the ball at the origin moving down-right,
    /// the paddle at the left padding.
    pub fn start(&mut self)
        ensures
            final(self).state() == (((0int, 0int), (1int, 1int), (0int, 0int))),
            final(self).pad() == (PAD as int, old(self).pad().1),
            final(self).field_b() == old(self).field_b(),
    {
        self.score = Score::default();
        self.ball = Ball::default();
        self.paddle.set_x(PAD);
    }

    /// Move the paddle's left edge.
    pub fn paddle_to(&mut self, x: i32)
        ensures
            final(self).pad() == (x as int, old(self).pad().1),
            final(self).state() == old(self).state(),
            final(self).field_b() == old(self).field_b(),
    {
        self.paddle.set_x(x);
    }

    /// The ball to render: left, top, diameter.
    pub fn ball(&self) -> (r: (i32, i32, i32))
        ensures
            r.0 == self.state().0.0,
            r.1 == self.state().0.1,
            r.2 == BALL_SIZE,
    {
        self.ball.draw()
    }

    /// The paddle to render: left, top, width, height.
    pub fn paddle(&self) -> (r: (i32, i32, i32, i32))
        ensures
            r.0 == self.pad().0,
            r.1 == self.pad().1,
            r.2 == PADDLE_W,
            r.3 == crate::pong_model::PADDLE_H,
    {
        self.paddle.draw()
    }

    /// The points and the level, in that order.
    pub fn score(&self) -> (r: (i32, i32))
        ensures
            r.0 == self.state().2.0,
            r.1 == self.state().2.1,
    {
        self.score.draw()
    }

    /// One tick of play: the ball advances `PAD + 5 * level` cells. The
    /// resulting state is exactly `pong_run` of the old one; on survival
    /// the level is re-derived from the points, and `false` comes back
    /// exactly when the points fell below zero.
    #[verifier::loop_isolation(false)]
    pub fn tick(&mut self) -> (r: bool)
        requires
            old(self).in_range(),
        ensures
            r <==> !pong_lost(
                pong_run(
                    old(self).state(),
                    old(self).field_b(),
                    old(self).pad(),
                    PAD + 5 * old(self).state().2.1,
                ),
            ),
            final(self).state().0 == pong_run(
                old(self).state(),
                old(self).field_b(),
                old(self).pad(),
                PAD + 5 * old(self).state().2.1,
            ).0,
            final(self).state().1 == pong_run(
                old(self).state(),
                old(self).field_b(),
                old(self).pad(),
                PAD + 5 * old(self).state().2.1,
            ).1,
            final(self).state().2.0 == pong_run(
                old(self).state(),
                old(self).field_b(),
                old(self).pad(),
                PAD + 5 * old(self).state().2.1,
            ).2.0,
            r ==> final(self).state().2.1 == spec_level(final(self).state().2.0),
            !r ==> final(self).state().2.1 == old(self).state().2.1,
            final(self).field_b() == old(self).field_b(),
            final(self).pad() == old(self).pad(),
    {
        let ghost s0 = self.state();
        let ghost fb = self.field_b();
        let ghost pd = self.pad();
        proof {
            self.ball.lemma_dir_unit();
        }
        let n: i32 = PAD + 5 * self.score.1;
        let ghost nn = n as int;
        let mut i: i32 = 0;
        while i < n
            invariant
                0 <= i <= n,
                self.field_b() == fb,
                self.pad() == pd,
                self.state().2.1 == s0.2.1,
                0 <= self.state().2.0 <= BOUND + i,
                -BOUND - i <= self.state().0.0 <= BOUND + i,
                -BOUND - i <= self.state().0.1 <= BOUND + i,
                self.state().1.0 == 1 || self.state().1.0 == -1,
                self.state().1.1 == 1 || self.state().1.1 == -1,
                pong_run(s0, fb, pd, nn) == pong_run(self.state(), fb, pd, nn - i),
            decreases n - i,
        {
            let ghost before = self.state();
            self.ball.step();
            if self.ball.check_field(&self.field) {
                self.score.dec();
            }
            if self.ball.check_paddle(&self.paddle) {
                self.score.inc();
            }
            proof {
                assert(self.state() == pong_step(before, fb, pd));
            }
            if self.score.0 < 0 {
                proof {
                    assert(pong_run(before, fb, pd, nn - i) == self.state());
                }
                return false;
            }
            i = i + 1;
        }
        self.score.update();
        true
    }
}

impl Default for Model {
    /// A fresh game: zero field, paddle and score, the ball at the origin.
    fn default() -> (r: Self)
        ensures
            r.state() == (((0int, 0int), (1int, 1int), (0int, 0int))),
            r.field_b() == (((0int, 0int), (0int, 0int))),
            r.pad() == (0int, 0int),
            r.in_range(),
    {
        Model {
            field: Field::default(),
            paddle: Paddle::default(),
            ball: Ball::default(),
            score: Score::default(),
        }
    }
}

} // verus!

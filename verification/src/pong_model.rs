//! The Pong pieces: the paddle, the ball with its two axis directions, the
//! field bounds and the score. The ball moves one cell per step along each
//! axis and reflects where it meets the field's edges or the paddle's top.

use vstd::prelude::*;

verus! {

/// The padding of the playing field, in pixels.
pub const PAD: i32 = 10;

/// The base height unit of the widgets.
pub const HEIGHT: i32 = 3 * PAD;

/// The base width unit of the widgets.
pub const WIDTH: i32 = 3 * HEIGHT;

/// The paddle's width.
pub const PADDLE_W: i32 = WIDTH * 2;

/// The paddle's height.
pub const PADDLE_H: i32 = HEIGHT;

/// The ball's diameter.
pub const BALL_SIZE: i32 = HEIGHT * 2;

/// The motion sense along one axis: one cell towards greater or smaller
/// coordinates per step.
#[derive(Clone, Copy, PartialEq, Eq, Structural, Debug)]
enum Direction {
    Positive,
    Negative,
}

/// A direction read as its step: +1 or -1.
spec fn dir_step(d: Direction) -> int {
    match d {
        Direction::Positive => 1,
        Direction::Negative => -1,
    }
}

/// The paddle: its left edge and its top edge.
pub struct Paddle(i32, i32);

impl Paddle {
    /// The left edge.
    pub closed spec fn x(&self) -> int {
        self.0 as int
    }

    /// The top edge.
    pub closed spec fn y(&self) -> int {
        self.1 as int
    }

    /// Move the paddle's left edge to `value`.
    pub fn set_x(&mut self, value: i32)
        ensures
            final(self).x() == value,
            final(self).y() == old(self).y(),
    {
        self.0 = value;
    }

    /// Place the paddle two heights above `value` (the window's bottom).
    pub fn set_y(&mut self, value: i32)
        requires
            i32::MIN + 2 * HEIGHT <= value,
        ensures
            final(self).y() == value - 2 * HEIGHT,
            final(self).x() == old(self).x(),
    {
        self.1 = value - HEIGHT * 2;
    }

    /// Whether the horizontal position lies on the paddle.
    pub fn place(&self, pos: i32) -> (r: bool)
        requires
            self.x() + PADDLE_W <= i32::MAX,
        ensures
            r <==> self.x() <= pos <= self.x() + PADDLE_W,
    {
        self.0 <= pos && pos <= self.0 + PADDLE_W
    }

    /// The rectangle to render: left, top, width, height.
    pub fn draw(&self) -> (r: (i32, i32, i32, i32))
        ensures
            r.0 == self.x(),
            r.1 == self.y(),
            r.2 == PADDLE_W,
            r.3 == PADDLE_H,
    {
        (self.0, self.1, PADDLE_W, PADDLE_H)
    }
}

impl Default for Paddle {
    fn default() -> (r: Self)
        ensures
            r.x() == 0,
            r.y() == 0,
    {
        Paddle(0, 0)
    }
}

/// The field bounds: the horizontal range and the vertical range.
pub struct Field {
    width: (i32, i32),
    height: (i32, i32),
}

impl Field {
    /// The bounds as ((left, right), (top, bottom)).
    pub closed spec fn bounds(&self) -> ((int, int), (int, int)) {
        (
            (self.width.0 as int, self.width.1 as int),
            (self.height.0 as int, self.height.1 as int),
        )
    }

    /// Adopt the window's size as the right and bottom bounds.
    pub fn update(&mut self, size: (i32, i32))
        ensures
            final(self).bounds() == (
                (old(self).bounds().0.0, size.0 as int),
                (old(self).bounds().1.0, size.1 as int),
            ),
    {
        self.width.1 = size.0;
        self.height.1 = size.1;
    }
}

impl Default for Field {
    fn default() -> (r: Self)
        ensures
            r.bounds() == ((0int, 0int), (0int, 0int)),
    {
        Field { width: (0, 0), height: (0, 0) }
    }
}

/// The ball: its top-left corner and its motion sense along each axis.
pub struct Ball {
    pos: (i32, i32),
    dir: (Direction, Direction),
}

impl Ball {
    /// The top-left corner.
    pub closed spec fn pos(&self) -> (int, int) {
        (self.pos.0 as int, self.pos.1 as int)
    }

    /// The step per axis: +1 or -1 each.
    pub closed spec fn dir(&self) -> (int, int) {
        (dir_step(self.dir.0), dir_step(self.dir.1))
    }

    /// The circle to render: left, top, diameter.
    pub fn draw(&self) -> (r: (i32, i32, i32))
        ensures
            r.0 == self.pos().0,
            r.1 == self.pos().1,
            r.2 == BALL_SIZE,
    {
        (self.pos.0, self.pos.1, BALL_SIZE)
    }

    /// Move one cell along each axis in the current directions.
    pub fn step(&mut self)
        requires
            i32::MIN <= old(self).pos().0 + old(self).dir().0 <= i32::MAX,
            i32::MIN <= old(self).pos().1 + old(self).dir().1 <= i32::MAX,
        ensures
            final(self).pos() == (
                old(self).pos().0 + old(self).dir().0,
                old(self).pos().1 + old(self).dir().1,
            ),
            final(self).dir() == old(self).dir(),
    {
        self.pos.0 = match self.dir.0 {
            Direction::Positive => self.pos.0 + 1,
            Direction::Negative => self.pos.0 - 1,
        };
        self.pos.1 = match self.dir.1 {
            Direction::Positive => self.pos.1 + 1,
            Direction::Negative => self.pos.1 - 1,
        };
    }

    /// Whether the ball's bottom touches the paddle's top while its centre
    /// lies on the paddle; if so it bounces upward.
    pub fn check_paddle(&mut self, paddle: &Paddle) -> (r: bool)
        requires
            old(self).pos().1 + BALL_SIZE <= i32::MAX,
            old(self).pos().0 + BALL_SIZE / 2 <= i32::MAX,
            paddle.x() + PADDLE_W <= i32::MAX,
        ensures
            r <==> (paddle.y() == old(self).pos().1 + BALL_SIZE && paddle.x() <= old(self).pos().0
                + BALL_SIZE / 2 <= paddle.x() + PADDLE_W),
            final(self).pos() == old(self).pos(),
            final(self).dir().0 == old(self).dir().0,
            final(self).dir().1 == (if r {
                -1int
            } else {
                old(self).dir().1
            }),
    {
        if paddle.1 == self.pos.1 + BALL_SIZE && paddle.place(self.pos.0 + BALL_SIZE / 2) {
            self.dir.1 = Direction::Negative;
            return true;
        }
        false
    }

    /// Reflect off the field's edges: the ball turns back where it meets
    /// the left, right or top bound. Reaching the bottom bound counts as a
    /// miss: the ball's vertical position resets to 0 and `true` comes
    /// back.
    pub fn check_field(&mut self, field: &Field) -> (r: bool)
        requires
            old(self).pos().0 + BALL_SIZE <= i32::MAX,
            old(self).pos().1 + BALL_SIZE <= i32::MAX,
        ensures
            r <==> old(self).pos().1 + BALL_SIZE == field.bounds().1.1,
            final(self).dir().0 == (if old(self).pos().0 == field.bounds().0.0 {
                1int
            } else if old(self).pos().0 + BALL_SIZE == field.bounds().0.1 {
                -1int
            } else {
                old(self).dir().0
            }),
            final(self).dir().1 == (if old(self).pos().1 == field.bounds().1.0 {
                1int
            } else {
                old(self).dir().1
            }),
            final(self).pos().0 == old(self).pos().0,
            final(self).pos().1 == (if r {
                0int
            } else {
                old(self).pos().1
            }),
    {
        if self.pos.0 + BALL_SIZE == field.width.1 {
            self.dir.0 = Direction::Negative;
        }
        if self.pos.0 == field.width.0 {
            self.dir.0 = Direction::Positive;
        }
        if self.pos.1 == field.height.0 {
            self.dir.1 = Direction::Positive;
        }
        if self.pos.1 + BALL_SIZE == field.height.1 {
            self.pos.1 = 0;
            return true;
        }
        false
    }
}

impl Ball {
    /// A direction is one cell per step: each axis component is +1 or -1.
    pub proof fn lemma_dir_unit(&self)
        ensures
            self.dir().0 == 1 || self.dir().0 == -1,
            self.dir().1 == 1 || self.dir().1 == -1,
    {
    }
}

impl Default for Ball {
    /// A ball at the origin moving towards greater coordinates.
    fn default() -> (r: Self)
        ensures
            r.pos() == (0int, 0int),
            r.dir() == (1int, 1int),
    {
        Ball { pos: (0, 0), dir: (Direction::Positive, Direction::Positive) }
    }
}

/// The level a point count earns: thresholds at 50, 150 and 300.
pub open spec fn spec_level(points: int) -> int {
    if 0 <= points < 50 {
        0
    } else if 50 <= points < 150 {
        1
    } else if 150 <= points < 300 {
        2
    } else {
        3
    }
}

/// The points and the level tier derived from them.
#[derive(Clone, Copy, PartialEq, Eq, Structural, Debug)]
pub struct Score(pub i32, pub i32);

impl Score {
    /// A miss: one point down.
    pub fn dec(&mut self)
        requires
            i32::MIN < old(self).0,
        ensures
            final(self).0 == old(self).0 - 1,
            final(self).1 == old(self).1,
    {
        self.0 = self.0 - 1;
    }

    /// A paddle hit: one point up.
    pub fn inc(&mut self)
        requires
            old(self).0 < i32::MAX,
        ensures
            final(self).0 == old(self).0 + 1,
            final(self).1 == old(self).1,
    {
        self.0 = self.0 + 1;
    }

    /// Re-derive the level from the points.
    pub fn update(&mut self)
        ensures
            final(self).0 == old(self).0,
            final(self).1 == spec_level(old(self).0 as int),
    {
        self.1 = if 0 <= self.0 && self.0 < 50 {
            0
        } else if 50 <= self.0 && self.0 < 150 {
            1
        } else if 150 <= self.0 && self.0 < 300 {
            2
        } else {
            3
        };
    }

    /// The points and the level, in that order.
    pub fn draw(&self) -> (r: (i32, i32))
        ensures
            r == (self.0, self.1),
    {
        (self.0, self.1)
    }
}

impl Default for Score {
    fn default() -> (r: Self)
        ensures
            r == Score(0, 0),
    {
        Score(0, 0)
    }
}

/// The level mapping is a pure step function of the points: level 0 at 0,
/// rising at the thresholds 50, 150 and 300, and monotone.
pub proof fn lemma_level_step()
    ensures
        spec_level(0) == 0,
        spec_level(50) == 1,
        spec_level(150) == 2,
        forall|n: int| n >= 300 ==> spec_level(n) == 3,
        forall|a: int, b: int| 0 <= a <= b ==> spec_level(a) <= spec_level(b),
{
}

} // verus!

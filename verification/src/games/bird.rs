//! The flappy-bird game: the bird falls under gravity and flaps upward,
//! pipes scroll towards it leaving a gap, passing a pipe scores a point,
//! and touching a pipe or leaving the window ends the game.

use crate::random;
use vstd::prelude::*;
use vstd::seq_lib::*;

verus! {

/// Gravity: the velocity gained per tick.
pub const DOWN: i32 = 1;

/// A flap: the velocity a flap sets.
pub const UP: i32 = -8;

/// The bird's diameter.
pub const BIRD: i32 = 60;

/// A pipe's width.
pub const PIPE_WIDTH: i32 = BIRD * 2;

/// The vertical gap a pipe leaves open.
pub const PIPE_GAP: i32 = BIRD * 5;

/// How far pipes scroll per tick: one fifteenth of the bird's diameter.
pub const PIPE_SPEED: i32 = 4;

/// The bird: its top-left position and its vertical velocity.
#[derive(Clone, Copy, Debug)]
pub struct Bird {
    pub position: (i32, i32),
    pub velocity: i32,
}

impl Bird {
    /// A bird at rest at mid-height, a fixed distance from the left edge.
    pub fn new(height: i32) -> (r: Self)
        requires
            0 <= height,
        ensures
            r.position.0 == 100,
            r.position.1 == height as int / 2,
            r.velocity == 0,
    {
        Self { position: (100, height / 2), velocity: 0 }
    }
}

impl Default for Bird {
    fn default() -> (r: Self)
        ensures
            r.position == (0i32, 0i32),
            r.velocity == 0,
    {
        Bird { position: (0, 0), velocity: 0 }
    }
}

/// A pipe: its left edge, the centre of its gap, and whether the bird has
/// already been scored for passing it.
#[derive(Clone, Copy, PartialEq, Eq, Structural, Debug)]
pub struct Pipe {
    pub x: i32,
    pub gap_center_y: i32,
    pub scored: bool,
}

impl Pipe {
    /// The rectangle of the pipe's upper half: from the window's top down
    /// to the gap.
    pub fn top_rect(&self) -> (r: (i32, i32, i32, i32))
        requires
            i32::MIN + PIPE_GAP / 2 <= self.gap_center_y,
        ensures
            r == (self.x, 0i32, PIPE_WIDTH, (self.gap_center_y - PIPE_GAP / 2) as i32),
    {
        let top_height = self.gap_center_y - (PIPE_GAP / 2);
        (self.x, 0, PIPE_WIDTH, top_height)
    }

    /// The rectangle of the pipe's lower half: from below the gap down to
    /// the window's bottom.
    pub fn bottom_rect(&self, height: i32) -> (r: (i32, i32, i32, i32))
        requires
            self.gap_center_y + PIPE_GAP / 2 <= i32::MAX,
            i32::MIN <= height - (self.gap_center_y + PIPE_GAP / 2) <= i32::MAX,
        ensures
            r == (
                self.x,
                (self.gap_center_y + PIPE_GAP / 2) as i32,
                PIPE_WIDTH,
                (height - (self.gap_center_y + PIPE_GAP / 2)) as i32,
            ),
    {
        let bottom_y = self.gap_center_y + (PIPE_GAP / 2);
        let bottom_height = height - bottom_y;
        (self.x, bottom_y, PIPE_WIDTH, bottom_height)
    }
}

/// Whether a circle given by its bounding square's top-left corner and
/// size overlaps an axis-aligned rectangle: the closest point of the
/// rectangle to the circle's centre lies strictly within the radius.
pub open spec fn circle_rect_overlap(position: (int, int), size: int, rec: (
    int,
    int,
    int,
    int,
)) -> bool {
    let radius = size / 2;
    let cx = position.0 + radius;
    let cy = position.1 + radius;
    let lox = if cx > rec.0 {
        cx
    } else {
        rec.0
    };
    let clx = if lox < rec.0 + rec.2 {
        lox
    } else {
        rec.0 + rec.2
    };
    let loy = if cy > rec.1 {
        cy
    } else {
        rec.1
    };
    let cly = if loy < rec.1 + rec.3 {
        loy
    } else {
        rec.1 + rec.3
    };
    (cx - clx) * (cx - clx) + (cy - cly) * (cy - cly) < radius * radius
}

/// The collision test between the bird's circle and a rectangle.
pub fn check_collision_circle_rec_manual(position: (i32, i32), size: i32, rec: (
    i32,
    i32,
    i32,
    i32,
)) -> (r: bool)
    requires
        -8192 <= position.0 <= 8192,
        -8192 <= position.1 <= 8192,
        0 <= size <= 600,
        -8192 <= rec.0 <= 8192,
        -8192 <= rec.1 <= 8192,
        0 <= rec.2 <= 8192,
        0 <= rec.3 <= 8192,
    ensures
        r == circle_rect_overlap(
            (position.0 as int, position.1 as int),
            size as int,
            (rec.0 as int, rec.1 as int, rec.2 as int, rec.3 as int),
        ),
{
    let radius = size / 2;
    let center = (position.0 + radius, position.1 + radius);
    let lox = if center.0 > rec.0 {
        center.0
    } else {
        rec.0
    };
    let closest_x = if lox < rec.0 + rec.2 {
        lox
    } else {
        rec.0 + rec.2
    };
    let loy = if center.1 > rec.1 {
        center.1
    } else {
        rec.1
    };
    let closest_y = if loy < rec.1 + rec.3 {
        loy
    } else {
        rec.1 + rec.3
    };
    let distance_x = center.0 - closest_x;
    let distance_y = center.1 - closest_y;
    proof {
        assert(0 <= distance_x * distance_x <= 625000000 && 0 <= distance_y * distance_y
            <= 625000000 && 0 <= radius * radius <= 90000) by (nonlinear_arith)
            requires
                -25000 <= distance_x <= 25000,
                -25000 <= distance_y <= 25000,
                0 <= radius <= 300,
        ;
    }
    let distance_squared = (distance_x * distance_x) + (distance_y * distance_y);
    distance_squared < (radius * radius)
}

/// One pipe scrolled one tick towards the bird.
pub open spec fn moved_pipe(p: Pipe) -> Pipe {
    Pipe { x: ((p.x - PIPE_SPEED) as i32), gap_center_y: p.gap_center_y, scored: p.scored }
}

/// All pipes scrolled one tick towards the bird.
pub open spec fn moved_pipes(s: Seq<Pipe>) -> Seq<Pipe> {
    Seq::new(s.len(), |i: int| moved_pipe(s[i]))
}

/// The predicate a pipe must satisfy to stay on screen.
pub open spec fn on_screen(p: Pipe) -> bool {
    p.x > -PIPE_WIDTH
}

/// The on-screen predicate as a single function value.
pub open spec fn on_screen_pred() -> spec_fn(Pipe) -> bool {
    |p: Pipe| on_screen(p)
}

/// Whether the bird at column `birdx` has newly passed this pipe.
pub open spec fn passes(p: Pipe, birdx: int) -> bool {
    !p.scored && birdx > p.x + PIPE_WIDTH
}

/// The newly-passed predicate as a single function value.
pub open spec fn passes_pred(birdx: int) -> spec_fn(Pipe) -> bool {
    |p: Pipe| passes(p, birdx)
}

/// Every newly passed pipe marked as scored.
pub open spec fn mark_passed(s: Seq<Pipe>, birdx: int) -> Seq<Pipe> {
    Seq::new(
        s.len(),
        |i: int|
            if passes(s[i], birdx) {
                Pipe { x: s[i].x, gap_center_y: s[i].gap_center_y, scored: true }
            } else {
                s[i]
            },
    )
}

/// A pipe within the ranges the tick's arithmetic needs: on or near a
/// window of height `fieldh`, its gap inside the window.
pub open spec fn pipe_ok(p: Pipe, fieldh: int) -> bool {
    &&& -4200 <= p.x <= 4096
    &&& PIPE_GAP / 2 <= p.gap_center_y <= fieldh - PIPE_GAP / 2
}

/// Whether the bird's circle touches either half of the pipe.
pub open spec fn hits_pipe(bird: Bird, p: Pipe, height: int) -> bool {
    ||| circle_rect_overlap(
        (bird.position.0 as int, bird.position.1 as int),
        BIRD as int,
        (p.x as int, 0, PIPE_WIDTH as int, p.gap_center_y - PIPE_GAP / 2),
    )
    ||| circle_rect_overlap(
        (bird.position.0 as int, bird.position.1 as int),
        BIRD as int,
        (p.x as int, p.gap_center_y + PIPE_GAP / 2, PIPE_WIDTH as int, height - (p.gap_center_y
            + PIPE_GAP / 2)),
    )
}

/// The full state of a bird game.
pub struct Model {
    field: (i32, i32),
    bird: Bird,
    pipes: Vec<Pipe>,
    score: i32,
}

impl Model {
    /// The window size the game plays in.
    pub closed spec fn field_s(&self) -> (int, int) {
        (self.field.0 as int, self.field.1 as int)
    }

    /// The bird.
    pub closed spec fn bird_s(&self) -> Bird {
        self.bird
    }

    /// The pipes, oldest first.
    pub closed spec fn pipes_s(&self) -> Seq<Pipe> {
        self.pipes@
    }

    /// The number of pipes passed.
    pub closed spec fn score_s(&self) -> int {
        self.score as int
    }

    /// Everything a tick reads stays within the ranges its arithmetic
    /// needs: a window no larger than 4096 on each side, pipes on or near
    /// it with their gaps inside it, the bird not far off it, and room
    /// left in the score.
    pub open spec fn in_range(&self) -> bool {
        &&& 0 <= self.field_s().0 <= 4096
        &&& 0 <= self.field_s().1 <= 4096
        &&& self.bird_s().position.0 == 100
        &&& -4096 <= self.bird_s().position.1 <= 4096
        &&& -4096 <= self.bird_s().velocity <= 4095
        &&& -4096 <= self.bird_s().position.1 + self.bird_s().velocity + DOWN <= 4096
        &&& (forall|i: int|
            0 <= i < self.pipes_s().len() ==> -4096 <= (#[trigger] self.pipes_s()[i]).x <= 4096
                && PIPE_GAP / 2 <= self.pipes_s()[i].gap_center_y <= self.field_s().1 - PIPE_GAP
                / 2)
        &&& self.pipes_s().len() <= 10000
        &&& 0 <= self.score_s() <= 0x4000_0000
    }

    /// The window size to play in.
    pub fn resize(&mut self, w: i32, h: i32)
        ensures
            final(self).field_s() == (w as int, h as int),
            final(self).bird_s() == old(self).bird_s(),
            final(self).pipes_s() == old(self).pipes_s(),
            final(self).score_s() == old(self).score_s(),
    {
        self.field = (w, h);
    }

    /// A flap: the bird's velocity jumps upward.
    pub fn flap(&mut self)
        ensures
            final(self).bird_s() == (Bird {
                velocity: UP,
                position: old(self).bird_s().position,
            }),
            final(self).field_s() == old(self).field_s(),
            final(self).pipes_s() == old(self).pipes_s(),
            final(self).score_s() == old(self).score_s(),
    {
        self.bird.velocity = UP;
    }

    /// Start a round: the bird at rest at mid-height, no pipes, no score.
    pub fn reset(&mut self)
        requires
            0 <= old(self).field_s().1,
        ensures
            final(self).field_s() == old(self).field_s(),
            final(self).bird_s().position == (100i32, ((old(self).field_s().1 / 2) as i32)),
            final(self).bird_s().velocity == 0,
            final(self).pipes_s() == (Seq::<Pipe>::empty()),
            final(self).score_s() == 0,
    {
        self.bird = Bird::new(self.field.1);
        self.pipes = Vec::new();
        self.score = 0;
    }

    /// The score so far.
    pub fn score(&self) -> (r: i32)
        ensures
            r == self.score_s(),
    {
        self.score
    }

    /// The bird to render.
    pub fn bird(&self) -> (r: (i32, i32))
        ensures
            r.0 == self.bird_s().position.0,
            r.1 == self.bird_s().position.1,
    {
        self.bird.position
    }

    /// The pipes to render.
    pub fn pipes(&self) -> (r: &Vec<Pipe>)
        ensures
            r@ == self.pipes_s(),
    {
        &self.pipes
    }

    /// One tick of play: gravity pulls the bird, the pipes scroll (and a
    /// new one spawns at the right edge with a uniformly drawn gap when
    /// `spawn` holds), pipes that left the screen are dropped, each newly
    /// passed pipe scores a point once, and `false` comes back exactly
    /// when the bird left the window or touched a pipe.
    #[verifier::loop_isolation(false)]
    #[verifier::rlimit(100)]
    #[verifier::spinoff_prover]
    pub fn tick(&mut self, spawn: bool) -> (r: bool)
        requires
            old(self).in_range(),
            spawn ==> old(self).field_s().1 > PIPE_GAP,
        ensures
            final(self).field_s() == old(self).field_s(),
            final(self).bird_s().position == (
                100i32,
                ((old(self).bird_s().position.1 + old(self).bird_s().velocity + DOWN) as i32),
            ),
            final(self).bird_s().velocity == old(self).bird_s().velocity + DOWN,
            !spawn ==> final(self).pipes_s() == mark_passed(
                moved_pipes(old(self).pipes_s()).filter(on_screen_pred()),
                100,
            ),
            !spawn ==> final(self).score_s() == old(self).score_s() + moved_pipes(
                old(self).pipes_s(),
            ).filter(on_screen_pred()).filter(passes_pred(100)).len(),
            spawn ==> final(self).pipes_s().len() >= 1 && {
                let np = final(self).pipes_s().last();
                &&& np.scored == false
                &&& np.x == old(self).field_s().0
                &&& PIPE_GAP / 2 <= np.gap_center_y < old(self).field_s().1 - PIPE_GAP / 2
                &&& final(self).pipes_s() == mark_passed(
                    moved_pipes(old(self).pipes_s()).filter(on_screen_pred()).push(np),
                    100,
                )
                &&& final(self).score_s() == old(self).score_s() + moved_pipes(
                    old(self).pipes_s(),
                ).filter(on_screen_pred()).filter(passes_pred(100)).len()
            },
            r <==> !(final(self).bird_s().position.1 - BIRD < 0 || final(self).bird_s().position.1 + BIRD > old(self).field_s().1) && (forall|i: int|
                0 <= i < final(self).pipes_s().len() ==> !hits_pipe(
                    final(self).bird_s(),
                    #[trigger] final(self).pipes_s()[i],
                    old(self).field_s().1,
                )),
    {
        self.bird.velocity = self.bird.velocity + DOWN;
        self.bird.position.1 = self.bird.position.1 + self.bird.velocity;
        let ghost b1 = self.bird;
        let ghost f0 = old(self).field_s();
        let ghost sc0 = old(self).score_s();
        let ghost m = moved_pipes(old(self).pipes_s());
        proof {
            assert forall|i: int| 0 <= i < m.len() implies pipe_ok(#[trigger] m[i], f0.1) by {
                assert(m[i] == moved_pipe(old(self).pipes_s()[i]));
            }
        }

        let mut next: Vec<Pipe> = Vec::new();
        let np = self.pipes.len();
        for k in 0..np
            invariant
                np == old(self).pipes_s().len(),
                self.pipes@ == old(self).pipes_s(),
                self.bird == b1,
                self.field_s() == f0,
                self.score as int == sc0,
                next@ =~= m.take(k as int),
        {
            let p = self.pipes[k];
            next.push(Pipe { x: p.x - PIPE_SPEED, gap_center_y: p.gap_center_y, scored: p.scored });
            assert(next@ =~= m.take(k + 1));
        }
        assert(next@ =~= m);
        let ghost spawned: Pipe;
        if spawn {
            let gap = random::random_range_i32(PIPE_GAP / 2, self.field.1 - PIPE_GAP / 2);
            let new_pipe = Pipe { x: self.field.0, gap_center_y: gap, scored: false };
            proof {
                spawned = new_pipe;
            }
            next.push(new_pipe);
        } else {
            proof {
                spawned = Pipe { x: 0, gap_center_y: 0, scored: false };
            }
        }
        let ghost withnew = next@;
        proof {
            assert forall|i: int| 0 <= i < withnew.len() implies pipe_ok(
                #[trigger] withnew[i],
                f0.1,
            ) by {
                if spawn && i == withnew.len() - 1 {
                } else {
                    assert(withnew[i] == m[i]);
                }
            }
        }

        let mut kept: Vec<Pipe> = Vec::new();
        let nk = next.len();
        for k in 0..nk
            invariant
                nk == withnew.len(),
                next@ == withnew,
                self.bird == b1,
                self.field_s() == f0,
                self.score as int == sc0,
                forall|i: int| 0 <= i < withnew.len() ==> pipe_ok(#[trigger] withnew[i], f0.1),
                kept@ =~= withnew.take(k as int).filter(on_screen_pred()),
        {
            let p = next[k];
            proof {
                assert(withnew.take(k + 1) =~= withnew.take(k as int).push(withnew[k as int]));
                Seq::lemma_filter_push(withnew.take(k as int), withnew[k as int], on_screen_pred());
            }
            if p.x > -PIPE_WIDTH {
                kept.push(p);
            }
            assert(kept@ =~= withnew.take(k + 1).filter(on_screen_pred()));
        }
        proof {
            assert(withnew.take(nk as int) =~= withnew);
        }
        let ghost kp = kept@;
        proof {
            assert forall|i: int| 0 <= i < kp.len() implies pipe_ok(#[trigger] kp[i], f0.1) by {
                assert(kp.contains(kp[i]));
                withnew.lemma_filter_contains_rev(on_screen_pred(), kp[i]);
                let j = choose|j: int| 0 <= j < withnew.len() && withnew[j] == kp[i];
            }
        }

        let mut scored: Vec<Pipe> = Vec::new();
        let ns = kept.len();
        let birdx = self.bird.position.0;
        for k in 0..ns
            invariant
                ns == kp.len(),
                kept@ == kp,
                birdx == 100,
                self.bird == b1,
                self.field_s() == f0,
                forall|i: int| 0 <= i < kp.len() ==> pipe_ok(#[trigger] kp[i], f0.1),
                scored@ =~= mark_passed(kp, 100).take(k as int),
                self.score as int == sc0 + kp.take(k as int).filter(passes_pred(100)).len(),
                sc0 + kp.take(k as int).filter(passes_pred(100)).len() <= sc0 + k,
        {
            let p = kept[k];
            proof {
                assert(kp.take(k + 1) =~= kp.take(k as int).push(kp[k as int]));
                Seq::lemma_filter_len_push(kp.take(k as int), passes_pred(100), kp[k as int]);
                kp.take(k as int).lemma_filter_len(passes_pred(100));
            }
            if !p.scored && birdx > p.x + PIPE_WIDTH {
                self.score = self.score + 1;
                scored.push(Pipe { x: p.x, gap_center_y: p.gap_center_y, scored: true });
            } else {
                scored.push(p);
            }
            assert(scored@ =~= mark_passed(kp, 100).take(k + 1));
        }
        proof {
            assert(mark_passed(kp, 100).take(ns as int) =~= mark_passed(kp, 100));
            assert(kp.take(ns as int) =~= kp);
        }
        self.pipes = scored;
        let ghost sc1 = self.score as int;
        proof {
            assert forall|i: int| 0 <= i < self.pipes@.len() implies pipe_ok(
                #[trigger] self.pipes@[i],
                f0.1,
            ) by {
                assert(self.pipes@[i] == mark_passed(kp, 100)[i]);
                assert(pipe_ok(kp[i], f0.1));
            }
            if spawn {
                assert(on_screen(spawned));
                Seq::lemma_filter_push(m, spawned, on_screen_pred());
                assert(kp =~= m.filter(on_screen_pred()).push(spawned));
                assert(!passes(spawned, 100));
                Seq::lemma_filter_len_push(m.filter(on_screen_pred()), passes_pred(100), spawned);
                assert(self.pipes@.len() >= 1);
                assert(self.pipes@.last() == spawned);
            }
        }

        let mut alive = true;
        if self.bird.position.1 - BIRD < 0 || self.bird.position.1 + BIRD > self.field.1 {
            alive = false;
        }
        let nf = self.pipes.len();
        for k in 0..nf
            invariant
                nf == self.pipes@.len(),
                self.pipes@ == mark_passed(kp, 100),
                self.bird == b1,
                self.field_s() == f0,
                self.score as int == sc1,
                forall|i: int| 0 <= i < self.pipes@.len() ==> pipe_ok(#[trigger] self.pipes@[i], f0.1),
                alive == (!(b1.position.1 - BIRD < 0 || b1.position.1 + BIRD > f0.1) && (forall|
                    i: int,
                |
                    0 <= i < k ==> !hits_pipe(b1, #[trigger] self.pipes@[i], f0.1))),
        {
            let p = self.pipes[k];
            let top = p.top_rect();
            let bottom = p.bottom_rect(self.field.1);
            let hit_top = check_collision_circle_rec_manual(self.bird.position, BIRD, top);
            let hit_bottom = check_collision_circle_rec_manual(self.bird.position, BIRD, bottom);
            if hit_top || hit_bottom {
                alive = false;
            }
            assert((hit_top || hit_bottom) <==> hits_pipe(b1, self.pipes@[k as int], f0.1));
        }
        proof {
            assert(self.bird == b1);
            assert(self.pipes@ == mark_passed(kp, 100));
            assert(alive == (!(self.bird_s().position.1 - BIRD < 0 || self.bird_s().position.1
                + BIRD > f0.1) && (forall|i: int|
                0 <= i < self.pipes_s().len() ==> !hits_pipe(
                    self.bird_s(),
                    #[trigger] self.pipes_s()[i],
                    f0.1,
                )))) by {
                assert forall|i: int| 0 <= i < self.pipes_s().len() implies (hits_pipe(
                    self.bird_s(),
                    #[trigger] self.pipes_s()[i],
                    f0.1,
                ) <==> hits_pipe(b1, self.pipes@[i], f0.1)) by {}
            }
        }
        alive
    }
}

impl Default for Model {
    /// A fresh game in a zero-sized window.
    fn default() -> (r: Self)
        ensures
            r.field_s() == (0int, 0int),
            r.bird_s() == (Bird { position: (0i32, 0i32), velocity: 0i32 }),
            r.pipes_s() == (Seq::<Pipe>::empty()),
            r.score_s() == 0,
    {
        Model { field: (0, 0), bird: Bird::default(), pipes: Vec::new(), score: 0 }
    }
}

} // verus!

use retro_games::games::pong::Model;
use retro_games::pong_model::{Ball, Field, Paddle, Score};

#[test]
fn ball_steps_diagonally() {
    let mut b = Ball::default();
    assert_eq!(b.draw(), (0, 0, 60));
    b.step();
    assert_eq!(b.draw(), (1, 1, 60));
}

#[test]
fn ball_bounces_off_paddle() {
    let mut b = Ball::default();
    b.step();  // (1, 1)
    let mut p = Paddle::default();
    p.set_y(121);  // top edge at 61 == ball bottom
    p.set_x(0);
    assert!(b.check_paddle(&p));
    b.step();
    assert_eq!(b.draw(), (2, 0, 60));
}

#[test]
fn ball_misses_paddle_beside_it() {
    let mut b = Ball::default();
    b.step();
    let mut p = Paddle::default();
    p.set_y(121);
    p.set_x(300);  // ball centre at 31 is left of the paddle
    assert!(!b.check_paddle(&p));
}

#[test]
fn ball_missed_at_bottom_resets_height() {
    let mut b = Ball::default();
    b.step();  // (1, 1)
    let mut f = Field::default();
    f.update((61, 61));
    // the ball's right edge meets the right bound and its bottom the
    // bottom bound: a miss
    assert!(b.check_field(&f));
    b.step();
    assert_eq!(b.draw(), (0, 1, 60));
}

#[test]
fn ball_bounces_at_top() {
    let mut b = Ball::default();
    let f = Field::default();
    // at the origin the ball touches the left and top bounds
    assert!(!b.check_field(&f));
    b.step();
    assert_eq!(b.draw(), (1, 1, 60));
}

#[test]
fn paddle_draw_reports_rect() {
    let mut p = Paddle::default();
    p.set_x(40);
    p.set_y(540);
    assert_eq!(p.draw(), (40, 480, 180, 30));
}

#[test]
fn score_levels_step_pong() {
    let mut s = Score::default();
    s.update();
    assert_eq!(s.draw(), (0, 0));
    for _ in 0..50 {
        s.inc();
    }
    s.update();
    assert_eq!(s.draw(), (50, 1));
    for _ in 0..100 {
        s.inc();
    }
    s.update();
    assert_eq!(s.draw(), (150, 2));
    for _ in 0..150 {
        s.inc();
    }
    s.update();
    assert_eq!(s.draw(), (300, 3));
}

#[test]
fn score_below_zero_is_tier_three() {
    let mut s = Score::default();
    s.dec();
    s.update();
    assert_eq!(s.draw(), (-1, 3));
}

#[test]
fn tick_advances_ball_ten_cells_at_level_zero() {
    let mut m = Model::default();
    m.resize(960, 540);
    m.start();
    assert!(m.tick());
    assert_eq!(m.ball(), (10, 10, 60));
    assert_eq!(m.score(), (0, 0));
}

#[test]
fn paddle_hit_scores_a_point() {
    let mut m = Model::default();
    m.resize(960, 540);
    m.start();
    // the paddle's top sits at 480; the ball falls diagonally from the
    // origin, so it reaches height 420 (bottom 480) at column 420
    m.paddle_to(400);
    let mut scored = false;
    for _ in 0..60 {
        assert!(m.tick());
        if m.score().0 > 0 {
            scored = true;
            break;
        }
    }
    assert!(scored);
    assert_eq!(m.score().0, 1);
}

#[test]
fn missed_ball_ends_round_eventually() {
    let mut m = Model::default();
    m.resize(960, 540);
    m.start();
    // park the paddle far right: the ball falls through at the bottom,
    // and the first miss takes the points below zero
    m.paddle_to(900);
    let mut over = false;
    for _ in 0..400 {
        if !m.tick() {
            over = true;
            break;
        }
    }
    assert!(over);
    assert!(m.score().0 < 0);
}

use retro_games::games::bird::{check_collision_circle_rec_manual, Bird, Model, Pipe};

#[test]
fn bird_starts_mid_height() {
    let b = Bird::new(540);
    assert_eq!(b.position, (100, 270));
    assert_eq!(b.velocity, 0);
}

#[test]
fn pipe_rects_frame_the_gap() {
    let p = Pipe { x: 500, gap_center_y: 300, scored: false };
    assert_eq!(p.top_rect(), (500, 0, 120, 150));
    assert_eq!(p.bottom_rect(540), (500, 450, 120, 90));
}

#[test]
fn collision_detects_overlap() {
    // the circle's centre lands inside the rectangle
    assert!(check_collision_circle_rec_manual((100, 100), 60, (100, 100, 50, 50)));
}

#[test]
fn collision_misses_distant_rect() {
    assert!(!check_collision_circle_rec_manual((0, 0), 60, (200, 200, 10, 10)));
}

#[test]
fn collision_touching_edge_is_no_overlap() {
    // the closest point sits exactly one radius away: strict inequality
    assert!(!check_collision_circle_rec_manual((0, 0), 60, (60, 0, 10, 60)));
}

#[test]
fn gravity_pulls_the_bird() {
    let mut m = Model::default();
    m.resize(960, 540);
    m.reset();
    assert_eq!(m.bird(), (100, 270));
    assert!(m.tick(false));
    assert_eq!(m.bird(), (100, 271));
    assert!(m.tick(false));
    assert_eq!(m.bird(), (100, 273));
    assert_eq!(m.score(), 0);
}

#[test]
fn flap_sets_upward_velocity() {
    let mut m = Model::default();
    m.resize(960, 540);
    m.reset();
    m.flap();
    assert!(m.tick(false));
    // a flap then gravity: the bird rises seven cells
    assert_eq!(m.bird(), (100, 263));
}

#[test]
fn spawned_pipe_scrolls_left() {
    let mut m = Model::default();
    m.resize(960, 540);
    m.reset();
    assert!(m.tick(true));
    assert_eq!(m.pipes().len(), 1);
    let p0 = m.pipes()[0];
    assert_eq!(p0.x, 960);
    assert!(!p0.scored);
    assert!((150..390).contains(&p0.gap_center_y));
    m.flap();
    assert!(m.tick(false));
    assert_eq!(m.pipes()[0].x, 956);
    assert_eq!(m.pipes()[0].gap_center_y, p0.gap_center_y);
}

#[test]
fn passing_a_pipe_scores_once() {
    let mut m = Model::default();
    m.resize(960, 540);
    m.reset();
    assert!(m.tick(true));
    // keep flapping: the bird leaves through the top and the game reports
    // a loss, but the state keeps moving and the pipe drifts past
    for _ in 0..250 {
        m.flap();
        m.tick(false);
    }
    assert_eq!(m.score(), 1);
    assert_eq!(m.pipes().len(), 1);
    assert!(m.pipes()[0].scored);
}

#[test]
fn offscreen_pipes_are_dropped() {
    let mut m = Model::default();
    m.resize(960, 540);
    m.reset();
    assert!(m.tick(true));
    for _ in 0..270 {
        m.flap();
        m.tick(false);
    }
    // x has fallen to 960 - 271 * 4 < -120: the pipe is gone
    assert_eq!(m.pipes().len(), 0);
}

#[test]
fn leaving_the_window_loses() {
    let mut m = Model::default();
    m.resize(960, 540);
    m.reset();
    let mut alive = true;
    for _ in 0..60 {
        alive = m.tick(false);
        if !alive {
            break;
        }
    }
    // free fall from mid-height crosses the bottom within the minute
    assert!(!alive);
}

use retro_games::games::snake::Model;
use retro_games::models::snake as field_snake;
use retro_games::snake_model::{check_x, check_y, Apple, Score, Snake};

#[test]
fn wrap_left_edge() {
    assert_eq!(check_x(-1), 53);
    assert_eq!(check_y(-1), 29);
}

#[test]
fn wrap_right_edge() {
    assert_eq!(check_x(54), 0);
    assert_eq!(check_y(30), 0);
}

#[test]
fn wrap_inside_is_identity() {
    assert_eq!(check_x(10), 10);
    assert_eq!(check_y(0), 0);
    assert_eq!(check_x(53), 53);
    assert_eq!(check_y(29), 29);
}

#[test]
fn wrap_screen_field_variant() {
    assert_eq!(field_snake::check_x(-1), 47);
    assert_eq!(field_snake::check_x(48), 0);
    assert_eq!(field_snake::check_y(-1), 26);
    assert_eq!(field_snake::check_y(27), 0);
}

#[test]
fn snake_moves_and_grows_head() {
    let mut s = Snake { body: vec![(0, 0)], direction: (1, 0) };
    let r = s.update();
    assert_eq!(r, Some((1, 0)));
    assert_eq!(s.body, vec![(1, 0), (0, 0)]);
}

#[test]
fn snake_wraps_around_field() {
    let mut s = Snake { body: vec![(53, 7)], direction: (1, 0) };
    assert_eq!(s.update(), Some((0, 7)));
}

#[test]
fn snake_dies_on_its_body() {
    let mut s = Snake { body: vec![(0, 0), (1, 0)], direction: (1, 0) };
    assert_eq!(s.update(), None);
    assert_eq!(s.body, vec![(0, 0), (1, 0)]);
}

#[test]
fn direction_rejects_reversal() {
    let mut s = Snake { body: vec![(0, 0)], direction: (1, 0) };
    s.direction(-1, 0);
    assert_eq!(s.direction, (1, 0));
    s.direction(0, 1);
    assert_eq!(s.direction, (0, 1));
    s.direction(0, 1);
    assert_eq!(s.direction, (0, 1));
}

#[test]
fn screen_field_snake_update_matches() {
    let mut s = field_snake::Snake { body: vec![(47, 3)], direction: (1, 0) };
    assert_eq!(s.update(), Some((0, 3)));
}

#[test]
fn apple_lands_on_the_field() {
    for _ in 0..20 {
        let a = Apple::default();
        assert!((0..54).contains(&a.0));
        assert!((0..29).contains(&a.1));
        let b = field_snake::Apple::new((48, 27));
        assert!((0..48).contains(&b.0));
        assert!((0..27).contains(&b.1));
    }
}

#[test]
fn score_levels_step_snake() {
    let mut s = Score::default();
    s.update();
    assert_eq!(s.level(), 0);
    for _ in 0..5 {
        s.inc();
    }
    s.update();
    assert_eq!(s.level(), 1);
    for _ in 0..10 {
        s.inc();
    }
    s.update();
    assert_eq!(s.level(), 2);
    for _ in 0..15 {
        s.inc();
    }
    s.update();
    assert_eq!(s.level(), 3);
}

#[test]
fn model_map_shows_snake_and_apple() {
    let m = Model::default();
    let map = m.map();
    assert_eq!(map.len(), 30);
    assert_eq!(map[0].len(), 54);
    let mut apples = 0;
    let mut snake_cells = 0;
    for row in map.iter() {
        for cell in row.iter() {
            match cell {
                Some(7) => apples += 1,
                Some(_) => snake_cells += 1,
                None => {}
            }
        }
    }
    assert_eq!(apples, 1);
    assert_eq!(snake_cells, 1);
}

#[test]
fn model_tick_keeps_one_cell_snake_alive() {
    let mut m = Model::default();
    assert_eq!(m.level(), 0);
    // in 40 ticks the snake grows to at most 41 cells, shorter than any
    // loop it could close on this field
    for _ in 0..40 {
        assert!(m.tick());
    }
    let map = m.map();
    let mut snake_cells = 0;
    for row in map.iter() {
        for cell in row.iter() {
            if cell.is_some() && *cell != Some(7) {
                snake_cells += 1;
            }
        }
    }
    // the snake only grows when it eats; it stays short regardless
    assert!(snake_cells >= 1);
}

#[test]
fn model_direction_steers() {
    let mut m = Model::default();
    m.direction(0, 1);
    assert!(m.tick());
}

use retro_games::games::tetris::Model;

#[test]
fn fresh_model_scores_zero() {
    let m = Model::default();
    assert_eq!(m.score(), (0, 0));
}

#[test]
fn spawned_figure_shows_on_field() {
    let mut m = Model::default();
    m.next();
    let field = m.field();
    let mut set = 0;
    for row in field.iter() {
        for cell in row.iter() {
            if cell.is_some() {
                set += 1;
            }
        }
    }
    assert_eq!(set, 4);
    // the figure spawns at column 10 on the top rows
    let mut on_spawn_cols = 0;
    for (y, row) in field.iter().enumerate() {
        for (x, cell) in row.iter().enumerate() {
            if cell.is_some() {
                assert!((10..14).contains(&x));
                assert!(y < 4);
                on_spawn_cols += 1;
            }
        }
    }
    assert_eq!(on_spawn_cols, 4);
}

#[test]
fn preview_matches_upcoming_shape() {
    let m = Model::default();
    let preview = m.preview();
    let mut set = 0;
    for row in preview.iter() {
        for cell in row.iter() {
            if cell.is_some() {
                set += 1;
            }
        }
    }
    assert_eq!(set, 4);
}

#[test]
fn down_moves_or_locks() {
    let mut m = Model::default();
    m.next();
    // from the top the figure can always drop at least once
    assert!(m.down());
}

#[test]
fn set_grid_blanks_the_field() {
    let mut m = Model::default();
    m.next();
    for _ in 0..3 {
        m.down();
    }
    m.set_grid();
    // only the falling figure remains on the field
    let field = m.field();
    let mut set = 0;
    for row in field.iter() {
        for cell in row.iter() {
            if cell.is_some() {
                set += 1;
            }
        }
    }
    assert_eq!(set, 4);
}

#[test]
fn unshifted_pieces_stack_to_a_loss() {
    // pieces spawn at column 10 and are never shifted, so no row ever
    // fills, nothing clears, and the stack must reach the top
    let mut m = Model::default();
    m.next();
    let mut lost = false;
    for _ in 0..2000 {
        if !m.play() {
            lost = true;
            break;
        }
    }
    assert!(lost);
    // no line was ever cleared on the way
    assert_eq!(m.score(), (0, 0));
}

#[test]
fn shift_left_moves_figure() {
    let mut m = Model::default();
    m.next();
    let before = m.field();
    m.shift((-1, 0));
    let after = m.field();
    let col_before: usize = first_occupied_column(&before);
    let col_after: usize = first_occupied_column(&after);
    assert_eq!(col_after + 1, col_before);
}

#[test]
fn shift_into_wall_is_rejected() {
    let mut m = Model::default();
    m.next();
    // far past the left wall: nothing may move
    let before = m.field();
    m.shift((-100, 0));
    let after = m.field();
    assert_eq!(before, after);
}

fn first_occupied_column(field: &Vec<Vec<Option<usize>>>) -> usize {
    for x in 0..field[0].len() {
        for row in field.iter() {
            if row[x].is_some() {
                return x;
            }
        }
    }
    panic!("no occupied cell");
}

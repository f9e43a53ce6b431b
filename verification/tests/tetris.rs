use retro_games::grid;
use retro_games::models::{Figure, Grid, Next, Score, GRID_HEIGHT, GRID_WIDTH};

#[test]
fn score_levels_step() {
    let mut s = Score::default();
    s.update();
    assert_eq!(s.get(), (0, 0));
    s.inc();
    s.update();
    assert_eq!(s.get(), (1, 1));
    s.inc();
    s.update();
    assert_eq!(s.get(), (2, 2));
    s.inc();
    s.update();
    assert_eq!(s.get(), (3, 3));
    s.inc();
    s.update();
    assert_eq!(s.get(), (4, 3));
}

#[test]
fn figure_new_straight() {
    let f = Figure::new(10, 0, 1, 0);
    assert_eq!(f.shape, (1, 0));
    assert_eq!(f.coor, [(10, 0), (10, 1), (10, 2), (10, 3)]);
}

#[test]
fn figure_shift_moves_all_cells() {
    let f = Figure::new(3, 2, 0, 0);
    let g = f.shift((2, 5));
    assert_eq!(g.shape, f.shape);
    assert_eq!(g.coor, [(5, 7), (6, 7), (5, 8), (6, 8)]);
}

#[test]
fn figure_rotate_advances_rotation() {
    let f = Figure::new(5, 5, 4, 0);
    let r = f.rotate();
    assert_eq!(r.shape, (4, 1));
    assert_eq!(r.coor, [(5, 6), (6, 5), (6, 6), (6, 7)]);
}

#[test]
fn figure_rotate_four_times_is_identity() {
    for shape in 0..7usize {
        let f = Figure::new(5, 5, shape, 0);
        let r1 = f.rotate();
        let r2 = r1.rotate();
        let r3 = r2.rotate();
        let r4 = r3.rotate();
        assert_eq!(r1.shape.1, 1);
        assert_eq!(r2.shape.1, 2);
        assert_eq!(r3.shape.1, 3);
        assert_eq!(r4.shape, f.shape);
        assert_eq!(r4.coor, f.coor);
    }
}

#[test]
fn grid_check_accepts_fitting_figure() {
    let g = Grid::default();
    let f = Figure::new(0, 0, 0, 0);
    let r = g.check(f);
    assert!(r.is_some());
    assert_eq!(r.unwrap().coor, [(0, 0), (1, 0), (0, 1), (1, 1)]);
}

#[test]
fn grid_check_rejects_out_of_bounds_right() {
    let g = Grid::default();
    // a horizontal straight piece at column 13 reaches column 16
    let f = Figure::new(13, 0, 1, 1);
    assert!(g.check(f).is_none());
}

#[test]
fn grid_check_rejects_negative_column() {
    let g = Grid::default();
    let f = Figure::new(0, 0, 0, 0).shift((-1, 0));
    assert!(g.check(f).is_none());
}

#[test]
fn grid_check_rejects_below_bottom() {
    let g = Grid::default();
    let f = Figure::new(0, GRID_HEIGHT - 2, 1, 0);
    assert!(g.check(f).is_none());
}

#[test]
fn grid_check_rejects_occupied_cell() {
    let mut g = Grid::default();
    g.0[1][0] = Some(3);
    let f = Figure::new(0, 0, 0, 0);
    assert!(g.check(f).is_none());
}

#[test]
fn find_full_line_empty_grid() {
    let g = Grid::default();
    assert_eq!(g.find_full_line(), Vec::<usize>::new());
}

#[test]
fn find_full_line_reports_ascending() {
    let mut g = Grid::default();
    for j in 0..GRID_WIDTH {
        g.0[4][j] = Some(1);
        g.0[29][j] = Some(2);
    }
    assert_eq!(g.find_full_line(), vec![4, 29]);
}

#[test]
fn next_shape_in_range() {
    let n = Next::default();
    assert!(n.get() < 7);
    let preview = n.draw();
    let mut set = 0;
    for row in preview.iter() {
        for cell in row.iter() {
            if let Some(c) = cell {
                assert_eq!(*c, n.get());
                set += 1;
            }
        }
    }
    assert_eq!(set, 4);
}

#[test]
fn grid_draw_overlays_figure() {
    let g = Grid::default();
    let f = Figure::new(2, 3, 0, 0);
    let field = g.draw(&f);
    assert_eq!(field.len(), GRID_HEIGHT);
    assert_eq!(field[0].len(), GRID_WIDTH);
    assert_eq!(field[3][2], Some(0));
    assert_eq!(field[3][3], Some(0));
    assert_eq!(field[4][2], Some(0));
    assert_eq!(field[4][3], Some(0));
    assert_eq!(field[0][0], None);
    assert_eq!(field[3][4], None);
}

#[test]
fn lock_at_top_row_signals_loss() {
    let mut g = grid::blank_grid(GRID_WIDTH, GRID_HEIGHT);
    let ok = grid::lock_cells(&mut g, &[(0, 0), (0, 1), (0, 2), (0, 3)], 2);
    assert!(!ok);
    // the first cell sat on row 0, so nothing was written
    assert_eq!(g[0][0], None);
    assert_eq!(g[1][0], None);
}

#[test]
fn lock_below_top_row_writes_cells() {
    let mut g = grid::blank_grid(GRID_WIDTH, GRID_HEIGHT);
    let ok = grid::lock_cells(&mut g, &[(5, 10), (6, 10), (5, 11), (6, 11)], 4);
    assert!(ok);
    assert_eq!(g[10][5], Some(4));
    assert_eq!(g[10][6], Some(4));
    assert_eq!(g[11][5], Some(4));
    assert_eq!(g[11][6], Some(4));
    assert_eq!(g[12][5], None);
}

#[test]
fn lock_stops_at_first_top_row_cell() {
    let mut g = grid::blank_grid(GRID_WIDTH, GRID_HEIGHT);
    let ok = grid::lock_cells(&mut g, &[(3, 5), (4, 5), (3, 0), (4, 4)], 1);
    assert!(!ok);
    // the two cells before the top-row cell were written, the one after not
    assert_eq!(g[5][3], Some(1));
    assert_eq!(g[5][4], Some(1));
    assert_eq!(g[4][4], None);
}

#[test]
fn clear_lines_counts_and_shifts() {
    let mut g = grid::blank_grid(GRID_WIDTH, GRID_HEIGHT);
    for j in 0..GRID_WIDTH {
        g[27][j] = Some(1);
        g[29][j] = Some(1);
    }
    // a partial row between the two full ones
    g[28][0] = Some(5);
    let n = grid::clear_lines(&mut g, GRID_WIDTH);
    assert_eq!(n, 2);
    assert_eq!(g.len(), GRID_HEIGHT);
    // two blank rows on top, the partial row now at the bottom
    assert_eq!(g[0], vec![None; GRID_WIDTH]);
    assert_eq!(g[1], vec![None; GRID_WIDTH]);
    assert_eq!(g[29][0], Some(5));
    for j in 1..GRID_WIDTH {
        assert_eq!(g[29][j], None);
    }
}

#[test]
fn clear_lines_full_grid_clears_everything() {
    let mut g = grid::blank_grid(GRID_WIDTH, GRID_HEIGHT);
    for i in 0..GRID_HEIGHT {
        for j in 0..GRID_WIDTH {
            g[i][j] = Some(1);
        }
    }
    let n = grid::clear_lines(&mut g, GRID_WIDTH);
    assert_eq!(n, GRID_HEIGHT);
    for i in 0..GRID_HEIGHT {
        assert_eq!(g[i], vec![None; GRID_WIDTH]);
    }
}

#[test]
fn clear_lines_keeps_untouched_grid() {
    let mut g = grid::blank_grid(GRID_WIDTH, GRID_HEIGHT);
    g[10][3] = Some(2);
    let n = grid::clear_lines(&mut g, GRID_WIDTH);
    assert_eq!(n, 0);
    assert_eq!(g[10][3], Some(2));
}

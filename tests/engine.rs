use blockfall::piece::{CurrentObject, PieceError};
use blockfall::playfield::{cell_at, clear_full_rows, clear_row, set_cell_at};
use blockfall::scoring::{drop_delay, GameSession};
use nalgebra::SMatrix;

type Grid = SMatrix<u8, 10, 18>;

fn empty_grid() -> Grid {
    Grid::zeros()
}

fn fill_row(g: &mut Grid, y: usize, v: u8) {
    for x in 0..10 {
        g[(x, y)] = v;
    }
}

fn row_is_full(g: &Grid, y: usize) -> bool {
    (0..10).all(|x| g[(x, y)] != 0)
}

fn session(level: u8, score: u32, lines: u32) -> GameSession {
    GameSession { level, score, lines }
}

/// A falling T piece (center plus left, right and below) at `(cx, cy)`.
fn t_piece(cx: u8, cy: u8) -> CurrentObject {
    CurrentObject {
        cx,
        cy,
        x1: -1,
        y1: 0,
        x2: 1,
        y2: 0,
        x3: 0,
        y3: 1,
        tick_delay: 100,
        exists: true,
        exist_delay: 0,
        otype: 6,
        move_delay: 0,
        dead: false,
        pieces: vec![6, 2],
    }
}

/// A vertical I piece at `(cx, cy)`: cells from `cy - 1` to `cy + 2`.
fn vertical_i(cx: u8, cy: u8) -> CurrentObject {
    CurrentObject {
        cx,
        cy,
        x1: 0,
        y1: -1,
        x2: 0,
        y2: 2,
        x3: 0,
        y3: 1,
        tick_delay: 100,
        exists: true,
        exist_delay: 0,
        otype: 2,
        move_delay: 0,
        dead: false,
        pieces: vec![2, 0],
    }
}

fn waiting(exist_delay: i8, pieces: Vec<u8>) -> CurrentObject {
    CurrentObject {
        cx: 0,
        cy: 0,
        x1: 0,
        y1: 0,
        x2: 0,
        y2: 0,
        x3: 0,
        y3: 0,
        tick_delay: 0,
        exists: false,
        exist_delay,
        otype: 0,
        move_delay: 0,
        dead: false,
        pieces,
    }
}

fn geometry(p: &CurrentObject) -> (u8, u8, i8, i8, i8, i8, i8, i8) {
    (p.cx, p.cy, p.x1, p.y1, p.x2, p.y2, p.x3, p.y3)
}

const IDLE: (i8, i8, bool, bool) = (0, 0, false, false);

#[test]
fn clear_on_empty_grid_clears_nothing() {
    let mut g = empty_grid();
    assert_eq!(clear_full_rows(&mut g), 0);
    assert_eq!(g, empty_grid());
}

#[test]
fn clear_removes_every_full_row_and_compacts() {
    let mut g = empty_grid();
    fill_row(&mut g, 5, 1);
    fill_row(&mut g, 9, 2);
    fill_row(&mut g, 17, 3);
    g[(0, 4)] = 4;
    g[(3, 8)] = 5;
    g[(7, 16)] = 6;
    assert_eq!(clear_full_rows(&mut g), 3);
    for y in 0..18 {
        assert!(!row_is_full(&g, y));
    }
    // Rows kept in order, pushed down under three empty rows.
    let mut expected = empty_grid();
    expected[(0, 7)] = 4;
    expected[(3, 10)] = 5;
    expected[(7, 17)] = 6;
    assert_eq!(g, expected);
}

#[test]
fn clear_of_adjacent_full_rows() {
    let mut g = empty_grid();
    for y in 14..18 {
        fill_row(&mut g, y, 7);
    }
    g[(2, 13)] = 1;
    assert_eq!(clear_full_rows(&mut g), 4);
    let mut expected = empty_grid();
    expected[(2, 17)] = 1;
    assert_eq!(g, expected);
}

#[test]
fn clear_of_a_completely_full_grid() {
    let mut g = empty_grid();
    for y in 0..18 {
        fill_row(&mut g, y, 1);
    }
    assert_eq!(clear_full_rows(&mut g), 18);
    assert_eq!(g, empty_grid());
}

#[test]
fn clear_row_shifts_rows_above_and_empties_the_top() {
    let mut g = empty_grid();
    fill_row(&mut g, 0, 3);
    g[(4, 1)] = 2;
    g[(5, 6)] = 1;
    g[(6, 7)] = 4;
    clear_row(&mut g, 6);
    let mut expected = empty_grid();
    fill_row(&mut expected, 1, 3);
    expected[(4, 2)] = 2;
    expected[(6, 7)] = 4;
    assert_eq!(g, expected);
}

#[test]
fn clear_row_zero_empties_it() {
    let mut g = empty_grid();
    fill_row(&mut g, 0, 3);
    g[(1, 1)] = 5;
    clear_row(&mut g, 0);
    let mut expected = empty_grid();
    expected[(1, 1)] = 5;
    assert_eq!(g, expected);
}

#[test]
fn cell_accessors_read_and_write_one_cell() {
    let mut g = empty_grid();
    set_cell_at(&mut g, 9, 17, 4);
    assert_eq!(cell_at(&g, 9, 17), 4);
    assert_eq!(g[(9, 17)], 4);
    assert_eq!(cell_at(&g, 0, 0), 0);
    assert_eq!(g.iter().filter(|&&v| v != 0).count(), 1);
}

fn clear_n_rows_at(level: u8, n: usize) -> GameSession {
    let mut g = empty_grid();
    for y in 0..n {
        fill_row(&mut g, 17 - y, 1);
    }
    let mut s = session(level, 0, level as u32 * 10);
    CurrentObject::check_rows(&mut g, &mut s);
    s
}

#[test]
fn score_table_at_level_zero() {
    assert_eq!(clear_n_rows_at(0, 1).score, 40);
    assert_eq!(clear_n_rows_at(0, 2).score, 100);
    assert_eq!(clear_n_rows_at(0, 3).score, 300);
    assert_eq!(clear_n_rows_at(0, 4).score, 1200);
}

#[test]
fn score_table_at_level_two() {
    assert_eq!(clear_n_rows_at(2, 1).score, 120);
    assert_eq!(clear_n_rows_at(2, 2).score, 300);
    assert_eq!(clear_n_rows_at(2, 3).score, 900);
    assert_eq!(clear_n_rows_at(2, 4).score, 3600);
}

#[test]
fn no_clear_scores_nothing() {
    let s = clear_n_rows_at(3, 0);
    assert_eq!(s, session(3, 0, 30));
}

#[test]
fn clearing_more_than_four_rows_scores_nothing() {
    let s = clear_n_rows_at(0, 5);
    assert_eq!(s, session(0, 0, 5));
}

#[test]
fn level_turns_exactly_at_ten_lines() {
    let mut s = session(0, 0, 0);
    for expected_lines in 1..=9u32 {
        s.record_clear(1);
        assert_eq!(s.lines, expected_lines);
        assert_eq!(s.level, 0);
    }
    s.record_clear(1);
    assert_eq!(s.lines, 10);
    assert_eq!(s.level, 1);
    // Awards use the level from before the clear.
    assert_eq!(s.score, 400);
}

#[test]
fn level_change_uses_old_level_for_award() {
    let mut s = session(0, 0, 8);
    s.record_clear(2);
    assert_eq!(s, session(1, 100, 10));
}

#[test]
fn score_and_lines_saturate() {
    let mut s = session(255, u32::MAX - 10, u32::MAX - 1);
    s.record_clear(4);
    assert_eq!(s.score, u32::MAX);
    assert_eq!(s.lines, u32::MAX);
    assert_eq!(s.level, 255);
}

#[test]
fn gravity_table() {
    let expected: [i8; 20] = [
        53, 49, 45, 41, 37, 33, 28, 22, 17, 11, 10, 9, 8, 7, 6, 6, 5, 5, 4, 4,
    ];
    for (level, &d) in expected.iter().enumerate() {
        assert_eq!(drop_delay(level as u8), d);
    }
    assert_eq!(drop_delay(20), 3);
    assert_eq!(drop_delay(255), 3);
}

#[test]
fn bounds_check() {
    assert!(!CurrentObject::check_out_of_bounds(0, 0));
    assert!(!CurrentObject::check_out_of_bounds(9, 17));
    assert!(CurrentObject::check_out_of_bounds(-1, 5));
    assert!(CurrentObject::check_out_of_bounds(10, 5));
    assert!(CurrentObject::check_out_of_bounds(5, -1));
    assert!(CurrentObject::check_out_of_bounds(5, 18));
}

#[test]
fn moves_off_the_well_are_rejected() {
    let g = empty_grid();
    // T piece against the left wall: its left cell is at column 0.
    let p = t_piece(1, 5);
    assert!(!p.try_move(&g, -1, 0));
    assert!(p.try_move(&g, 1, 0));
    // Against the right wall: right cell at column 9.
    let p = t_piece(8, 5);
    assert!(!p.try_move(&g, 1, 0));
    assert!(p.try_move(&g, -1, 0));
    // On the floor: lowest cell at row 17.
    let p = t_piece(4, 16);
    assert!(!p.try_move(&g, 0, 1));
    // At the top: vertical I with its top cell at row 0.
    let p = vertical_i(4, 1);
    assert!(!p.try_move(&g, 0, -1));
    assert!(p.try_move(&g, 0, 1));
}

#[test]
fn moves_onto_occupied_cells_are_rejected() {
    let mut g = empty_grid();
    g[(6, 5)] = 3;
    let p = t_piece(4, 5);
    assert!(!p.try_move(&g, 1, 0));
    assert!(p.try_move(&g, -1, 0));
    g[(4, 7)] = 1;
    assert!(!p.try_move(&g, 0, 1));
}

#[test]
fn blocked_moves_leave_the_piece_unchanged() {
    // dx > 0 moves left; the piece sits on the left wall.
    let mut g = empty_grid();
    let mut s = session(0, 0, 0);
    let mut p = t_piece(1, 5);
    assert_eq!(p.tick_with_draw(&mut g, (1, 0, false, false), &mut s, 0), Ok(false));
    assert_eq!(geometry(&p), (1, 5, -1, 0, 1, 0, 0, 1));
    assert_eq!(p.move_delay, 0);
    // dx < 0 moves right, into an occupied cell.
    g[(3, 5)] = 2;
    let before = g;
    assert_eq!(p.tick_with_draw(&mut g, (-1, 0, false, false), &mut s, 0), Ok(false));
    assert_eq!(geometry(&p), (1, 5, -1, 0, 1, 0, 0, 1));
    assert_eq!(p.move_delay, 0);
    assert_eq!(g, before);
}

#[test]
fn horizontal_input_direction() {
    let mut g = empty_grid();
    let mut s = session(0, 0, 0);
    let mut p = t_piece(4, 5);
    p.tick_with_draw(&mut g, (-1, 0, false, false), &mut s, 0).unwrap();
    assert_eq!(p.cx, 5);
    assert_eq!(p.move_delay, 15);
    let mut p = t_piece(4, 5);
    p.tick_with_draw(&mut g, (1, 0, false, false), &mut s, 0).unwrap();
    assert_eq!(p.cx, 3);
}

#[test]
fn held_horizontal_input_repeats_after_fifteen_ticks() {
    let mut g = empty_grid();
    let mut s = session(0, 0, 0);
    let mut p = t_piece(8, 3);
    p.tick_delay = 120;
    p.tick_with_draw(&mut g, (1, 0, false, false), &mut s, 0).unwrap();
    assert_eq!(p.cx, 7);
    for _ in 0..15 {
        p.tick_with_draw(&mut g, (1, 0, false, false), &mut s, 0).unwrap();
        assert_eq!(p.cx, 7);
    }
    assert_eq!(p.move_delay, 0);
    p.tick_with_draw(&mut g, (1, 0, false, false), &mut s, 0).unwrap();
    assert_eq!(p.cx, 6);
    assert_eq!(p.cy, 3);
}

#[test]
fn releasing_horizontal_input_clears_the_delay() {
    let mut g = empty_grid();
    let mut s = session(0, 0, 0);
    let mut p = t_piece(4, 3);
    p.tick_with_draw(&mut g, (1, 0, false, false), &mut s, 0).unwrap();
    assert_eq!((p.cx, p.move_delay), (3, 15));
    p.tick_with_draw(&mut g, IDLE, &mut s, 0).unwrap();
    assert_eq!(p.move_delay, 0);
    p.tick_with_draw(&mut g, (1, 0, false, false), &mut s, 0).unwrap();
    assert_eq!((p.cx, p.move_delay), (2, 15));
}

#[test]
fn rotation_turns_offsets_about_the_center() {
    let mut g = empty_grid();
    let mut s = session(0, 0, 0);
    let mut p = t_piece(4, 5);
    // Clockwise: (x, y) -> (y, -x).
    p.tick_with_draw(&mut g, (0, 1, false, false), &mut s, 0).unwrap();
    assert_eq!(geometry(&p), (4, 5, 0, 1, 0, -1, 1, 0));
    // Counter-clockwise: (x, y) -> (-y, x), back to the start.
    p.tick_with_draw(&mut g, (0, -1, false, false), &mut s, 0).unwrap();
    assert_eq!(geometry(&p), (4, 5, -1, 0, 1, 0, 0, 1));
}

#[test]
fn four_clockwise_turns_are_the_identity() {
    let shapes: [(i8, i8, i8, i8, i8, i8); 7] = [
        (-1, 0, -1, 1, 1, 0),
        (-1, 0, 1, 1, 1, 0),
        (-1, 0, 2, 0, 1, 0),
        (0, 1, 1, 1, 1, 0),
        (-1, 0, 0, 1, 1, 1),
        (1, 0, 0, 1, -1, 1),
        (-1, 0, 1, 0, 0, 1),
    ];
    for (t, &(x1, y1, x2, y2, x3, y3)) in shapes.iter().enumerate() {
        let mut g = empty_grid();
        let mut s = session(0, 0, 0);
        let mut p = t_piece(4, 8);
        p.otype = t as u8;
        (p.x1, p.y1, p.x2, p.y2, p.x3, p.y3) = (x1, y1, x2, y2, x3, y3);
        for _ in 0..4 {
            p.tick_with_draw(&mut g, (0, 1, false, false), &mut s, 0).unwrap();
            assert_eq!((p.cx, p.cy), (4, 8));
        }
        assert_eq!(geometry(&p), (4, 8, x1, y1, x2, y2, x3, y3));
    }
}

#[test]
fn blocked_rotation_changes_nothing() {
    let mut g = empty_grid();
    let mut s = session(0, 0, 0);
    // Clockwise would turn the right cell (1, 0) to (0, -1), above the center.
    g[(4, 4)] = 5;
    let mut p = t_piece(4, 5);
    p.tick_with_draw(&mut g, (0, 1, false, false), &mut s, 0).unwrap();
    assert_eq!(geometry(&p), (4, 5, -1, 0, 1, 0, 0, 1));
    // On the left wall a vertical I cannot turn: its cells would leave the well.
    let mut p = vertical_i(0, 5);
    p.tick_with_draw(&mut g, (0, 1, false, false), &mut s, 0).unwrap();
    assert_eq!(geometry(&p), (0, 5, 0, -1, 0, 2, 0, 1));
}

#[test]
fn gravity_counts_down_and_drops() {
    let mut g = empty_grid();
    let mut s = session(2, 0, 20);
    let mut p = t_piece(4, 5);
    p.tick_delay = 2;
    p.tick_with_draw(&mut g, IDLE, &mut s, 0).unwrap();
    assert_eq!((p.cy, p.tick_delay), (5, 1));
    p.tick_with_draw(&mut g, IDLE, &mut s, 0).unwrap();
    assert_eq!((p.cy, p.tick_delay), (5, 0));
    p.tick_with_draw(&mut g, IDLE, &mut s, 0).unwrap();
    assert_eq!((p.cy, p.tick_delay), (6, 45));
}

#[test]
fn soft_drop_counts_down_by_three() {
    let mut g = empty_grid();
    let mut s = session(0, 0, 0);
    let mut p = t_piece(4, 5);
    p.tick_delay = 4;
    p.tick_with_draw(&mut g, (0, 0, true, false), &mut s, 0).unwrap();
    assert_eq!(p.tick_delay, 1);
    p.tick_with_draw(&mut g, (0, 0, true, false), &mut s, 0).unwrap();
    assert_eq!(p.tick_delay, -2);
    p.tick_with_draw(&mut g, (0, 0, true, false), &mut s, 0).unwrap();
    assert_eq!((p.cy, p.tick_delay), (6, 53));
}

#[test]
fn locking_writes_four_cells_with_type_plus_one() {
    let mut g = empty_grid();
    g[(0, 17)] = 1;
    let mut s = session(0, 0, 0);
    let mut p = t_piece(4, 16);
    p.tick_delay = 0;
    assert_eq!(p.tick_with_draw(&mut g, IDLE, &mut s, 0), Ok(false));
    assert!(!p.exists);
    assert_eq!(p.exist_delay, 10);
    let mut expected = empty_grid();
    expected[(0, 17)] = 1;
    expected[(4, 16)] = 7;
    expected[(3, 16)] = 7;
    expected[(5, 16)] = 7;
    expected[(4, 17)] = 7;
    assert_eq!(g, expected);
    assert_eq!(s, session(0, 0, 0));
}

#[test]
fn hard_drop_falls_to_the_stack_and_locks() {
    let mut g = empty_grid();
    fill_row(&mut g, 17, 1);
    g[(4, 17)] = 0;
    let mut s = session(0, 0, 0);
    // Vertical I with cells at rows 2..=5 in column 4.
    let mut p = vertical_i(4, 3);
    assert_eq!(p.tick_with_draw(&mut g, (0, 0, false, true), &mut s, 0), Ok(false));
    assert!(!p.exists);
    // It landed with its bottom cell in the gap of row 17, completing it.
    assert_eq!(s, session(0, 40, 1));
    let mut expected = empty_grid();
    for y in 15..18 {
        expected[(4, y)] = 3;
    }
    assert_eq!(g, expected);
}

#[test]
fn waiting_counts_down_before_spawning() {
    let mut g = empty_grid();
    let mut s = session(0, 0, 0);
    let mut p = waiting(2, vec![1, 5]);
    assert_eq!(p.tick_with_draw(&mut g, IDLE, &mut s, 3), Ok(false));
    assert_eq!(p.exist_delay, 1);
    assert_eq!(p.tick_with_draw(&mut g, IDLE, &mut s, 3), Ok(false));
    assert_eq!(p.exist_delay, 0);
    assert!(!p.exists);
    assert_eq!(p.tick_with_draw(&mut g, IDLE, &mut s, 3), Ok(true));
    assert!(p.exists);
    assert_eq!(p.otype, 5);
    assert_eq!(p.pieces, vec![5, 3]);
}

#[test]
fn spawn_places_the_piece_and_nudges_it_down() {
    let mut g = empty_grid();
    let mut s = session(0, 0, 0);
    let mut p = waiting(0, vec![0, 2]);
    assert_eq!(p.tick_with_draw(&mut g, (1, 1, true, true), &mut s, 4), Ok(true));
    assert!(p.exists && !p.dead);
    assert_eq!(p.otype, 2);
    assert_eq!(p.pieces, vec![2, 4]);
    // I piece shape, moved one row down from the spawn point (4, 1).
    assert_eq!(geometry(&p), (4, 2, -1, 0, 2, 0, 1, 0));
    assert_eq!(g, empty_grid());
}

#[test]
fn spawn_nudges_sideways_when_below_is_taken() {
    let mut g = empty_grid();
    // O piece at (4, 1) covers columns 4..=5, rows 1..=2; block row 3 there.
    g[(4, 3)] = 1;
    g[(5, 3)] = 1;
    let mut s = session(0, 0, 0);
    let mut p = waiting(0, vec![0, 3]);
    assert_eq!(p.tick_with_draw(&mut g, IDLE, &mut s, 0), Ok(true));
    assert_eq!(geometry(&p), (3, 1, 0, 1, 1, 1, 1, 0));
    // Left blocked too: it goes right.
    g[(3, 1)] = 1;
    let mut p = waiting(0, vec![0, 3]);
    assert_eq!(p.tick_with_draw(&mut g, IDLE, &mut s, 0), Ok(true));
    assert_eq!(geometry(&p), (5, 1, 0, 1, 1, 1, 1, 0));
    assert!(!p.dead);
}

#[test]
fn blocked_spawn_ends_the_game() {
    let mut g = empty_grid();
    // T piece spawns at (4, 1) on cells (3,1), (4,1), (5,1), (4,2).
    // Fill the first rows around it so that down, left and right all fail.
    for y in 0..4 {
        fill_row(&mut g, y, 2);
    }
    for &(x, y) in &[(3, 1), (4, 1), (5, 1), (4, 2)] {
        g[(x, y)] = 0;
    }
    let before = g;
    let mut s = session(1, 500, 12);
    let mut p = waiting(0, vec![0, 6]);
    assert_eq!(p.tick_with_draw(&mut g, (1, 1, true, true), &mut s, 2), Ok(true));
    assert!(p.dead);
    assert!(p.exists);
    assert_eq!(geometry(&p), (4, 1, -1, 0, 1, 0, 0, 1));
    assert_eq!(g, before);
    assert_eq!(s, session(1, 500, 12));
}

#[test]
fn invalid_draw_is_an_error_and_changes_nothing() {
    let mut g = empty_grid();
    let mut s = session(0, 0, 0);
    let mut p = waiting(0, vec![1, 2]);
    assert_eq!(
        p.tick_with_draw(&mut g, IDLE, &mut s, 7),
        Err(PieceError::InvalidPieceType)
    );
    assert!(!p.exists);
    assert_eq!(p.pieces, vec![1, 2]);
    assert_eq!(p.reset_with(200), Err(PieceError::InvalidPieceType));
    assert_eq!(p.pieces, vec![1, 2]);
    // A draw is only used when a piece spawns.
    let mut p = t_piece(4, 5);
    assert_eq!(p.tick_with_draw(&mut g, IDLE, &mut s, 9), Ok(false));
}

#[test]
fn reset_with_takes_each_shape() {
    let shapes: [(i8, i8, i8, i8, i8, i8); 7] = [
        (-1, 0, -1, 1, 1, 0),
        (-1, 0, 1, 1, 1, 0),
        (-1, 0, 2, 0, 1, 0),
        (0, 1, 1, 1, 1, 0),
        (-1, 0, 0, 1, 1, 1),
        (1, 0, 0, 1, -1, 1),
        (-1, 0, 1, 0, 0, 1),
    ];
    for t in 0..7u8 {
        let mut p = waiting(0, vec![0, t]);
        assert_eq!(p.reset_with(1), Ok(()));
        let (x1, y1, x2, y2, x3, y3) = shapes[t as usize];
        assert_eq!(geometry(&p), (4, 1, x1, y1, x2, y2, x3, y3));
        assert_eq!(p.otype, t);
        assert!(p.exists);
    }
}

#[test]
fn reset_obj_draws_a_valid_type() {
    for _ in 0..50 {
        let mut p = waiting(0, vec![4, 1]);
        assert_eq!(p.reset_obj(), Ok(()));
        assert_eq!(p.otype, 1);
        assert_eq!(p.pieces.len(), 2);
        assert_eq!(p.pieces[0], 1);
        assert!(p.pieces[1] < 7);
    }
}

#[test]
fn tick_obj_spawns_with_a_valid_draw() {
    let mut g = empty_grid();
    let mut s = session(0, 0, 0);
    for _ in 0..20 {
        let mut p = waiting(0, vec![4, 1]);
        assert_eq!(p.tick_obj(&mut g, IDLE, &mut s), Ok(true));
        assert_eq!(p.otype, 1);
        assert!(p.pieces[1] < 7);
        assert_eq!(p.cy, 2);
    }
    let mut p = t_piece(4, 5);
    assert_eq!(p.tick_obj(&mut g, IDLE, &mut s), Ok(false));
    assert_eq!(p.tick_delay, 99);
}

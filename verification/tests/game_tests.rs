use tetris::board::{Board, Cell};
use tetris::game::GameState;
use tetris::geometry::{rotate_shape, Color, Tetromino, TetrominoType};
use tetris::input::Input;
use tetris::music::MusicCommand;
use tetris::settings::{Difficulty, GameMode};
use tetris::squares::{SquareEffect, BLINK_COUNT};
use tetris::timing::{
    BLINK_PERIOD,
    HORIZONTAL_REPEAT_DELAY,
    INITIAL_HORIZONTAL_DELAY,
    LINE_CLEAR_DELAY,
};

const STANDARD: [TetrominoType; 7] = [
    TetrominoType::I,
    TetrominoType::O,
    TetrominoType::T,
    TetrominoType::S,
    TetrominoType::Z,
    TetrominoType::J,
    TetrominoType::L,
];

/// The game, found to be as the operations that work at any step take it to be.
fn inv(g: &mut GameState) -> &mut GameState {
    assert!(g.has_invariant());
    g
}

/// The game, found to be as the operations take it to be.
fn wf(g: &mut GameState) -> &mut GameState {
    assert!(g.is_well_formed());
    g
}

/// Puts a block with the number `id` on a square and makes room for the number.
fn put(g: &mut GameState, x: usize, y: usize, id: u32) {
    g.board.set(x, y, Some(block(id)));
    if g.next_piece_id <= id {
        g.next_piece_id = id + 1;
    }
}

fn game(first: TetrominoType, second: TetrominoType) -> GameState {
    let mut g = GameState::new();
    g.start_game_with(first, second);
    g
}

fn block(id: u32) -> Cell {
    Cell { color: Color::Red, t_type: TetrominoType::Z, id }
}

/// Fills row `y` but for the columns in `free`, and makes room for the ids.
fn fill_row_but(g: &mut GameState, y: usize, free: &[usize], id: u32) {
    for x in 0..10 {
        if !free.contains(&x) {
            g.board.set(x, y, Some(block(id)));
        }
    }
    if g.next_piece_id <= id {
        g.next_piece_id = id + 1;
    }
}

fn count_blocks(b: &Board) -> usize {
    let mut n = 0;
    for y in 0..20 {
        for x in 0..10 {
            if b.get(x, y).is_some() {
                n += 1;
            }
        }
    }
    n
}

fn place(g: &mut GameState, t_type: TetrominoType, pos: (i32, i32)) {
    g.tetromino = Some(Tetromino { shape: t_type.canonical_shape(), pos, color: t_type.color(), t_type });
}

fn cells_of(t: &Tetromino) -> Vec<(i32, i32)> {
    t.shape.iter().map(|c| (t.pos.0 + c[0], t.pos.1 + c[1])).collect()
}

#[test]
fn new_game_has_not_started() {
    let g = GameState::new();
    assert!(!g.started && !g.paused && !g.game_over);
    assert!(g.tetromino.is_none() && g.next_tetromino.is_none() && g.hold_tetromino.is_none());
    assert!(!g.hold_used);
    assert_eq!((g.score, g.lines_cleared, g.next_piece_id), (0, 0, 1));
    assert_eq!((g.left_timer, g.right_timer, g.fall_timer, g.line_clear_timer), (0, 0, 0, 0));
    assert!(g.clearing_lines.is_empty() && g.active_squares.is_empty());
    assert_eq!(count_blocks(&g.board), 0);
    assert_eq!(g.player_name, "Player");
    assert_eq!(g.difficulty, Difficulty::Normal);
    assert_eq!(g.game_mode, GameMode::Classic);
    for t in STANDARD {
        assert_eq!(g.piece_statistics.get(t), 0);
    }
    assert!(g.mus_mgr.commands.is_empty());
}

#[test]
fn start_game_sets_up_the_first_two_pieces() {
    let g = game(TetrominoType::T, TetrominoType::O);
    assert!(g.started && !g.paused && !g.game_over);
    let active = g.tetromino.unwrap();
    assert_eq!(active.t_type, TetrominoType::T);
    assert_eq!(active.pos, (3, 0));
    assert_eq!(active.shape, TetrominoType::T.canonical_shape());
    assert_eq!(active.color, Color::Purple);
    let next = g.next_tetromino.unwrap();
    assert_eq!(next.t_type, TetrominoType::O);
    assert_eq!(next.pos, (3, 0));
    assert!(g.hold_tetromino.is_none());
    for t in STANDARD {
        assert_eq!(g.piece_statistics.get(t), if t == TetrominoType::T { 1 } else { 0 });
    }
    assert_eq!(g.next_piece_id, 1);
    assert_eq!(
        g.mus_mgr.commands,
        vec![MusicCommand::Clear, MusicCommand::Append(0), MusicCommand::VolumeHalf, MusicCommand::Play]
    );
}

#[test]
fn start_game_resets_a_game_in_full_but_for_the_settings() {
    let mut g = game(TetrominoType::T, TetrominoType::O);
    g.player_name = "Ada".to_string();
    g.difficulty = Difficulty::Hard;
    g.game_mode = GameMode::Endless;
    g.score = 700;
    g.lines_cleared = 12;
    g.next_piece_id = 40;
    put(&mut g, 0, 19, 5);
    g.hold_tetromino = Some(Tetromino::new(TetrominoType::L));
    g.hold_used = true;
    g.paused = true;
    g.game_over = true;
    g.started = false;
    g.left_timer = 5;
    g.right_timer = 6;
    g.fall_timer = 7;
    g.start_game_with(TetrominoType::S, TetrominoType::Z);
    assert!(g.started && !g.paused && !g.game_over);
    assert_eq!((g.score, g.lines_cleared, g.next_piece_id), (0, 0, 1));
    assert_eq!((g.left_timer, g.right_timer, g.fall_timer, g.line_clear_timer), (0, 0, 0, 0));
    assert_eq!(count_blocks(&g.board), 0);
    assert!(g.hold_tetromino.is_none() && !g.hold_used);
    assert_eq!(g.tetromino.unwrap().t_type, TetrominoType::S);
    assert_eq!(g.next_tetromino.unwrap().t_type, TetrominoType::Z);
    assert_eq!(g.piece_statistics.get(TetrominoType::S), 1);
    assert_eq!(g.piece_statistics.get(TetrominoType::T), 0);
    assert_eq!(g.player_name, "Ada");
    assert_eq!(g.difficulty, Difficulty::Hard);
    assert_eq!(g.game_mode, GameMode::Endless);
    // The second song of this manager comes next.
    assert_eq!(g.mus_mgr.commands[5], MusicCommand::Append(1));
}

#[test]
fn start_game_draws_pieces_of_the_seven_kinds() {
    for _ in 0..50 {
        let mut g = GameState::new();
        g.start_game();
        let first = g.tetromino.unwrap();
        let second = g.next_tetromino.unwrap();
        assert!(!first.t_type.is_bonus() && !second.t_type.is_bonus());
        assert_eq!(first.shape, first.t_type.canonical_shape());
        assert_eq!(g.piece_statistics.get(first.t_type), 1);
        let counted: u32 = STANDARD.iter().map(|t| g.piece_statistics.get(*t)).sum();
        assert_eq!(counted, 1);
    }
}

#[test]
fn check_collision_looks_at_the_board_of_the_game() {
    let mut g = game(TetrominoType::T, TetrominoType::O);
    let o = TetrominoType::O.canonical_shape();
    assert!(!g.check_collision(&o, (0, 18)));
    assert!(g.check_collision(&o, (0, 19)));
    assert!(g.check_collision(&o, (-1, 0)));
    put(&mut g, 1, 19, 0);
    assert!(g.check_collision(&o, (0, 18)));
}

#[test]
fn move_and_set_shape_change_the_falling_piece() {
    let mut g = game(TetrominoType::T, TetrominoType::O);
    wf(&mut g).move_tetromino((2, 5));
    assert_eq!(g.tetromino.unwrap().pos, (5, 5));
    wf(&mut g).move_tetromino((-1, 0));
    assert_eq!(g.tetromino.unwrap().pos, (4, 5));
    let turned = rotate_shape(&TetrominoType::T.canonical_shape(), TetrominoType::T, true);
    wf(&mut g).set_tetromino_shape(turned);
    assert_eq!(g.tetromino.unwrap().shape, turned);
    assert_eq!(g.tetromino.unwrap().pos, (4, 5));
    assert_eq!(g.tetromino.unwrap().t_type, TetrominoType::T);
}

#[test]
fn spawn_promotes_the_next_piece() {
    let mut g = game(TetrominoType::T, TetrominoType::O);
    g.tetromino = None;
    g.hold_used = true;
    g.fall_timer = 99;
    inv(&mut g).spawn_with(TetrominoType::J);
    assert_eq!(g.tetromino.unwrap().t_type, TetrominoType::O);
    assert_eq!(g.tetromino.unwrap().pos, (3, 0));
    assert_eq!(g.next_tetromino.unwrap().t_type, TetrominoType::J);
    assert_eq!(g.next_tetromino.unwrap().shape, TetrominoType::J.canonical_shape());
    assert!(!g.hold_used);
    assert_eq!(g.fall_timer, 0);
    assert_eq!(g.piece_statistics.get(TetrominoType::O), 1);
    assert_eq!(g.piece_statistics.get(TetrominoType::T), 1);
    assert_eq!(g.piece_statistics.get(TetrominoType::J), 0);
    assert!(g.started && !g.game_over);
}

#[test]
fn spawn_does_nothing_before_the_start() {
    let mut g = GameState::new();
    inv(&mut g).spawn_with(TetrominoType::J);
    assert!(g.tetromino.is_none() && g.next_tetromino.is_none());
    assert!(!g.started && !g.game_over);
}

#[test]
fn spawn_collision_ends_the_game() {
    let mut g = game(TetrominoType::T, TetrominoType::O);
    g.tetromino = None;
    put(&mut g, 4, 1, 0);
    g.hold_used = true;
    g.fall_timer = 5;
    inv(&mut g).spawn_with(TetrominoType::J);
    assert!(g.game_over);
    assert!(!g.started);
    assert!(g.tetromino.is_none());
    assert_eq!(g.next_tetromino.unwrap().t_type, TetrominoType::O);
    assert_eq!(count_blocks(&g.board), 1);
    assert_eq!(g.piece_statistics.get(TetrominoType::O), 0);
    assert!(g.hold_used);
    assert_eq!(g.fall_timer, 5);
}

#[test]
fn spawn_new_tetromino_draws_a_standard_next_piece() {
    for _ in 0..50 {
        let mut g = game(TetrominoType::T, TetrominoType::O);
        g.tetromino = None;
        inv(&mut g).spawn_new_tetromino();
        assert_eq!(g.tetromino.unwrap().t_type, TetrominoType::O);
        let next = g.next_tetromino.unwrap();
        assert!(!next.t_type.is_bonus());
        assert_eq!(next.shape, next.t_type.canonical_shape());
        assert_eq!(next.pos, (3, 0));
        assert_eq!(next.color, next.t_type.color());
    }
}

#[test]
fn locking_gives_strictly_increasing_ids() {
    let mut g = game(TetrominoType::O, TetrominoType::O);
    let mut last = 0;
    for (k, x) in [0, 2, 4, 6].iter().enumerate() {
        place(&mut g, TetrominoType::O, (*x, 18));
        let id_before = g.next_piece_id;
        inv(&mut g).lock_tetromino_with(TetrominoType::O);
        let cell = g.board.get(*x as usize, 18).unwrap();
        assert_eq!(cell.id, id_before);
        assert!(cell.id > last);
        last = cell.id;
        assert_eq!(g.next_piece_id, id_before + 1);
        assert_eq!(cell.id, k as u32 + 1);
        // Every block on the board is below the next id.
        for y in 0..20 {
            for cx in 0..10 {
                if let Some(c) = g.board.get(cx, y) {
                    assert!(c.id < g.next_piece_id);
                }
            }
        }
    }
}

#[test]
fn lock_without_full_rows_spawns_at_once() {
    let mut g = game(TetrominoType::T, TetrominoType::O);
    place(&mut g, TetrominoType::T, (3, 18));
    inv(&mut g).lock_tetromino_with(TetrominoType::L);
    let want = Some(Cell { color: Color::Purple, t_type: TetrominoType::T, id: 1 });
    for (x, y) in [(4, 18), (3, 19), (4, 19), (5, 19)] {
        assert_eq!(g.board.get(x, y), want);
    }
    assert_eq!(count_blocks(&g.board), 4);
    assert_eq!(g.tetromino.unwrap().t_type, TetrominoType::O);
    assert_eq!(g.next_tetromino.unwrap().t_type, TetrominoType::L);
    assert_eq!(g.line_clear_timer, 0);
    assert!(g.clearing_lines.is_empty());
    assert!(g.started && !g.game_over);
}

#[test]
fn lock_with_full_rows_waits_and_spawns_nothing() {
    let mut g = game(TetrominoType::I, TetrominoType::O);
    fill_row_but(&mut g, 19, &[3, 4, 5, 6], 1);
    place(&mut g, TetrominoType::I, (3, 19));
    let id = g.next_piece_id;
    inv(&mut g).lock_tetromino_with(TetrominoType::L);
    assert_eq!(g.clearing_lines, vec![19]);
    assert_eq!(g.line_clear_timer, LINE_CLEAR_DELAY);
    assert_eq!(LINE_CLEAR_DELAY, 810_000);
    assert!(g.tetromino.is_none());
    assert_eq!(g.next_tetromino.unwrap().t_type, TetrominoType::O);
    assert_eq!(g.piece_statistics.get(TetrominoType::O), 0);
    assert_eq!(g.next_piece_id, id + 1);
    assert_eq!(g.board.get(3, 19).unwrap().id, id);
    assert_eq!(g.lines_cleared, 0);
    assert!(g.active_squares.is_empty());
}

#[test]
fn lock_without_a_piece_writes_nothing() {
    let mut g = game(TetrominoType::I, TetrominoType::O);
    g.tetromino = None;
    inv(&mut g).lock_tetromino_with(TetrominoType::L);
    assert_eq!(count_blocks(&g.board), 0);
    assert_eq!(g.next_piece_id, 1);
    assert_eq!(g.tetromino.unwrap().t_type, TetrominoType::O);
}

#[test]
fn lock_that_leaves_no_room_ends_the_game() {
    let mut g = game(TetrominoType::O, TetrominoType::O);
    place(&mut g, TetrominoType::O, (3, 0));
    inv(&mut g).lock_tetromino_with(TetrominoType::L);
    assert!(g.game_over && !g.started);
    assert!(g.tetromino.is_none());
    assert_eq!(count_blocks(&g.board), 4);
}

#[test]
fn lock_tetromino_draws_the_piece_after_next() {
    let mut g = game(TetrominoType::T, TetrominoType::O);
    place(&mut g, TetrominoType::T, (0, 18));
    inv(&mut g).lock_tetromino();
    assert_eq!(g.tetromino.unwrap().t_type, TetrominoType::O);
    assert!(!g.next_tetromino.unwrap().t_type.is_bonus());
    assert_eq!(g.next_piece_id, 2);
}

#[test]
fn four_o_pieces_locked_in_a_square_blink_gold() {
    let mut g = game(TetrominoType::O, TetrominoType::O);
    for (k, (x, y)) in [(0, 16), (2, 16), (0, 18), (2, 18)].iter().enumerate() {
        assert!(g.active_squares.is_empty());
        place(&mut g, TetrominoType::O, (*x, *y));
        inv(&mut g).lock_tetromino_with(TetrominoType::O);
        assert_eq!(g.next_piece_id, k as u32 + 2);
    }
    assert_eq!(g.active_squares.len(), 1);
    let e = g.active_squares[0];
    assert_eq!((e.x, e.y), (0, 16));
    assert!(e.is_gold);
    assert_eq!((e.timer, e.flash_on, e.blinks_remaining), (BLINK_PERIOD, true, BLINK_COUNT));
    assert_eq!(g.score, 0);
    // A later lock elsewhere does not start the square again.
    place(&mut g, TetrominoType::O, (8, 18));
    inv(&mut g).lock_tetromino_with(TetrominoType::O);
    assert_eq!(g.active_squares.len(), 1);
}

#[test]
fn check_for_4x4_squares_appends_new_effects() {
    let mut g = game(TetrominoType::O, TetrominoType::O);
    let mut id = 1;
    for (x, y) in [(6, 0), (8, 0), (6, 2), (8, 2)] {
        let o = Tetromino { shape: TetrominoType::O.canonical_shape(), pos: (x, y), color: Color::Yellow, t_type: TetrominoType::O };
        g.board.lock(&o, id);
        id += 1;
    }
    g.next_piece_id = id;
    inv(&mut g).check_for_4x4_squares();
    assert_eq!(g.active_squares.len(), 1);
    assert_eq!((g.active_squares[0].x, g.active_squares[0].y), (6, 0));
    inv(&mut g).check_for_4x4_squares();
    assert_eq!(g.active_squares.len(), 1);
}

#[test]
fn clearing_the_bottom_four_rows() {
    let mut g = game(TetrominoType::T, TetrominoType::O);
    g.tetromino = None;
    for y in 16..20 {
        fill_row_but(&mut g, y, &[], 3);
    }
    put(&mut g, 0, 15, 1);
    put(&mut g, 9, 12, 2);
    g.clearing_lines = vec![16, 17, 18, 19];
    g.line_clear_timer = LINE_CLEAR_DELAY;
    g.lines_cleared = 10;
    inv(&mut g).clear_lines_delayed_with(TetrominoType::L);
    assert_eq!(g.lines_cleared, 14);
    for y in 0..4 {
        for x in 0..10 {
            assert_eq!(g.board.get(x, y), None);
        }
    }
    assert_eq!(g.board.get(0, 19), Some(block(1)));
    assert_eq!(g.board.get(9, 16), Some(block(2)));
    assert_eq!(count_blocks(&g.board), 2);
    assert!(g.clearing_lines.is_empty());
    assert_eq!(g.line_clear_timer, 0);
    assert_eq!(g.tetromino.unwrap().t_type, TetrominoType::O);
    assert_eq!(g.next_tetromino.unwrap().t_type, TetrominoType::L);
    assert!(g.started && !g.game_over);
}

#[test]
fn clearing_rows_can_end_the_game() {
    let mut g = game(TetrominoType::T, TetrominoType::O);
    g.tetromino = None;
    fill_row_but(&mut g, 19, &[], 1);
    // After the row is gone this block sits where the O enters.
    put(&mut g, 3, 0, 2);
    g.clearing_lines = vec![19];
    g.line_clear_timer = 1;
    inv(&mut g).clear_lines_delayed_with(TetrominoType::L);
    assert!(g.game_over && !g.started);
    assert!(g.tetromino.is_none());
    assert_eq!(g.next_tetromino.unwrap().t_type, TetrominoType::O);
    assert_eq!(g.lines_cleared, 1);
    assert_eq!(g.board.get(3, 1), Some(block(2)));
    assert_eq!(count_blocks(&g.board), 1);
    assert_eq!(g.line_clear_timer, 0);
    assert!(g.clearing_lines.is_empty());
}

#[test]
fn clear_lines_delayed_draws_the_piece_after_next() {
    let mut g = game(TetrominoType::T, TetrominoType::O);
    g.tetromino = None;
    fill_row_but(&mut g, 19, &[], 1);
    g.clearing_lines = vec![19];
    g.line_clear_timer = 1;
    inv(&mut g).clear_lines_delayed();
    assert_eq!(g.lines_cleared, 1);
    assert_eq!(count_blocks(&g.board), 0);
    assert_eq!(g.tetromino.unwrap().t_type, TetrominoType::O);
    assert!(!g.next_tetromino.unwrap().t_type.is_bonus());
}

#[test]
fn squares_are_looked_for_after_rows_are_cleared() {
    let mut g = game(TetrominoType::T, TetrominoType::O);
    g.tetromino = None;
    let mut id = 1;
    for (x, y) in [(0, 15), (2, 15), (0, 17), (2, 17)] {
        let o = Tetromino { shape: TetrominoType::O.canonical_shape(), pos: (x, y), color: Color::Yellow, t_type: TetrominoType::O };
        g.board.lock(&o, id);
        id += 1;
    }
    fill_row_but(&mut g, 19, &[], id);
    g.clearing_lines = vec![19];
    g.line_clear_timer = 1;
    inv(&mut g).clear_lines_delayed_with(TetrominoType::L);
    assert_eq!(g.active_squares.len(), 1);
    assert_eq!((g.active_squares[0].x, g.active_squares[0].y), (0, 16));
    assert!(g.active_squares[0].is_gold);
}

#[test]
fn update_square_effects_scores_finished_squares() {
    let mut g = game(TetrominoType::O, TetrominoType::O);
    for (x, y) in [(0, 16), (2, 16), (0, 18), (2, 18)] {
        place(&mut g, TetrominoType::O, (x, y));
        inv(&mut g).lock_tetromino_with(TetrominoType::O);
    }
    for step in 1..=10 {
        inv(&mut g).update_square_effects(BLINK_PERIOD);
        assert_eq!(g.active_squares.len(), 1, "after {} periods", step);
        assert_eq!(g.score, 0);
    }
    inv(&mut g).update_square_effects(BLINK_PERIOD);
    assert!(g.active_squares.is_empty());
    assert_eq!(g.score, 500);
    for y in 16..20 {
        for x in 0..4 {
            let c = g.board.get(x, y).unwrap();
            assert_eq!((c.color, c.t_type, c.id), (Color::Gold, TetrominoType::BonusGold, 0));
        }
    }
    inv(&mut g).update_square_effects(BLINK_PERIOD);
    assert_eq!(g.score, 500);
    // The bonus blocks are not found as a square again.
    inv(&mut g).check_for_4x4_squares();
    assert!(g.active_squares.is_empty());
}

#[test]
fn a_press_to_the_left_moves_one_column_and_arms_the_timer() {
    let mut g = game(TetrominoType::O, TetrominoType::O);
    wf(&mut g).steer_left(true, true, 16_000);
    assert_eq!(g.tetromino.unwrap().pos, (2, 0));
    assert_eq!(g.left_timer, INITIAL_HORIZONTAL_DELAY);
    assert_eq!(INITIAL_HORIZONTAL_DELAY, 600_000);
}

#[test]
fn a_press_against_the_wall_moves_nothing_and_keeps_the_timer() {
    let mut g = game(TetrominoType::O, TetrominoType::O);
    place(&mut g, TetrominoType::O, (0, 5));
    g.left_timer = 77;
    wf(&mut g).steer_left(true, true, 16_000);
    assert_eq!(g.tetromino.unwrap().pos, (0, 5));
    assert_eq!(g.left_timer, 77);
    place(&mut g, TetrominoType::O, (8, 5));
    g.right_timer = 78;
    wf(&mut g).steer_right(true, true, 16_000);
    assert_eq!(g.tetromino.unwrap().pos, (8, 5));
    assert_eq!(g.right_timer, 78);
}

#[test]
fn holding_a_direction_runs_after_the_delay() {
    let mut g = game(TetrominoType::O, TetrominoType::O);
    wf(&mut g).steer_right(true, true, 0);
    assert_eq!(g.tetromino.unwrap().pos, (4, 0));
    wf(&mut g).steer_right(false, true, 599_999);
    assert_eq!(g.tetromino.unwrap().pos, (4, 0));
    assert_eq!(g.right_timer, 1);
    wf(&mut g).steer_right(false, true, 1);
    assert_eq!(g.tetromino.unwrap().pos, (5, 0));
    assert_eq!(g.right_timer, HORIZONTAL_REPEAT_DELAY);
    assert_eq!(HORIZONTAL_REPEAT_DELAY, 300_000);
    wf(&mut g).steer_right(false, true, 299_999);
    assert_eq!(g.tetromino.unwrap().pos, (5, 0));
    wf(&mut g).steer_right(false, true, 1_000_000);
    assert_eq!(g.tetromino.unwrap().pos, (6, 0));
    assert_eq!(g.right_timer, HORIZONTAL_REPEAT_DELAY);
}

#[test]
fn holding_against_the_wall_keeps_the_timer_at_zero() {
    let mut g = game(TetrominoType::O, TetrominoType::O);
    place(&mut g, TetrominoType::O, (0, 5));
    g.left_timer = 100;
    wf(&mut g).steer_left(false, true, 250);
    assert_eq!(g.left_timer, 0);
    assert_eq!(g.tetromino.unwrap().pos, (0, 5));
    wf(&mut g).steer_left(false, true, 250);
    assert_eq!(g.left_timer, 0);
    // Once there is room the piece steps at the next frame.
    place(&mut g, TetrominoType::O, (1, 5));
    wf(&mut g).steer_left(false, true, 0);
    assert_eq!(g.tetromino.unwrap().pos, (0, 5));
    assert_eq!(g.left_timer, HORIZONTAL_REPEAT_DELAY);
}

#[test]
fn letting_go_zeroes_the_timer() {
    let mut g = game(TetrominoType::O, TetrominoType::O);
    g.left_timer = 500;
    g.right_timer = 600;
    wf(&mut g).steer_left(false, false, 1);
    wf(&mut g).steer_right(false, false, 1);
    assert_eq!((g.left_timer, g.right_timer), (0, 0));
    assert_eq!(g.tetromino.unwrap().pos, (3, 0));
}

#[test]
fn left_and_right_in_one_frame_are_each_tried_in_turn() {
    let mut g = game(TetrominoType::O, TetrominoType::O);
    // At the left wall: left is refused, right goes.
    place(&mut g, TetrominoType::O, (0, 5));
    let input = Input { left_pressed: true, right_pressed: true, ..Input::none() };
    wf(&mut g).process_input_with(&input, 0, TetrominoType::L);
    assert_eq!(g.tetromino.unwrap().pos, (1, 5));
    // In the open: left goes, right goes, the piece is back.
    wf(&mut g).process_input_with(&input, 0, TetrominoType::L);
    assert_eq!(g.tetromino.unwrap().pos, (1, 5));
    assert_eq!((g.left_timer, g.right_timer), (INITIAL_HORIZONTAL_DELAY, INITIAL_HORIZONTAL_DELAY));
}

#[test]
fn a_turn_is_tried_where_the_move_of_the_frame_left_the_piece() {
    // Upright at the left wall the I has its cells in column 0. Turning it
    // flat would reach column -1; one column to the right it fits.
    let mut g = game(TetrominoType::I, TetrominoType::O);
    let upright = rotate_shape(&TetrominoType::I.canonical_shape(), TetrominoType::I, true);
    g.tetromino = Some(Tetromino { shape: upright, pos: (-1, 5), color: Color::Cyan, t_type: TetrominoType::I });
    let turn = Input { rotate_ccw: true, ..Input::none() };
    wf(&mut g).process_input_with(&turn, 0, TetrominoType::L);
    assert_eq!(g.tetromino.unwrap().shape, upright);
    let both = Input { right_pressed: true, rotate_ccw: true, ..Input::none() };
    wf(&mut g).process_input_with(&both, 0, TetrominoType::L);
    assert_eq!(g.tetromino.unwrap().pos, (0, 5));
    assert_eq!(g.tetromino.unwrap().shape, TetrominoType::I.canonical_shape());
    for (x, y) in cells_of(&g.tetromino.unwrap()) {
        assert!((0..10).contains(&x) && (0..20).contains(&y));
    }
}

#[test]
fn a_turn_that_leaves_the_field_is_refused() {
    let mut g = game(TetrominoType::I, TetrominoType::O);
    // At the top, either turn of the I would reach above the field.
    for clockwise in [true, false] {
        wf(&mut g).turn(clockwise);
        assert_eq!(g.tetromino.unwrap().shape, TetrominoType::I.canonical_shape());
        assert_eq!(g.tetromino.unwrap().pos, (3, 0));
    }
    // Two rows down both fit.
    wf(&mut g).move_tetromino((0, 2));
    wf(&mut g).turn(true);
    assert_eq!(g.tetromino.unwrap().shape, [[1, 1], [1, 0], [1, -1], [1, -2]]);
    assert_eq!(g.tetromino.unwrap().pos, (3, 2));
    // Upright at the right wall, no turn fits, and the piece is not pushed
    // off the wall to make room.
    g.tetromino = Some(Tetromino { pos: (8, 5), ..g.tetromino.unwrap() });
    let before = g.tetromino.unwrap();
    wf(&mut g).turn(true);
    assert_eq!(g.tetromino.unwrap().shape, before.shape);
    assert_eq!(g.tetromino.unwrap().pos, (8, 5));
    wf(&mut g).turn(false);
    assert_eq!(g.tetromino.unwrap().shape, before.shape);
}

#[test]
fn a_turn_into_a_taken_square_is_refused() {
    let mut g = game(TetrominoType::T, TetrominoType::O);
    place(&mut g, TetrominoType::T, (3, 5));
    // Clockwise the T would take (4, 7).
    put(&mut g, 4, 7, 0);
    wf(&mut g).turn(true);
    assert_eq!(g.tetromino.unwrap().shape, TetrominoType::T.canonical_shape());
    g.board.set(4, 7, None);
    wf(&mut g).turn(true);
    assert_eq!(g.tetromino.unwrap().shape, [[0, 1], [1, 2], [1, 1], [1, 0]]);
}

#[test]
fn both_turns_in_one_frame_cancel() {
    let mut g = game(TetrominoType::T, TetrominoType::O);
    place(&mut g, TetrominoType::T, (3, 5));
    let input = Input { rotate_ccw: true, rotate_cw: true, ..Input::none() };
    wf(&mut g).process_input_with(&input, 0, TetrominoType::L);
    assert_eq!(g.tetromino.unwrap().shape, TetrominoType::T.canonical_shape());
}

#[test]
fn soft_drop_moves_a_row_and_restarts_the_fall() {
    let mut g = game(TetrominoType::O, TetrominoType::O);
    g.fall_timer = 500;
    wf(&mut g).soft_drop();
    assert_eq!(g.tetromino.unwrap().pos, (3, 1));
    assert_eq!(g.fall_timer, 0);
    place(&mut g, TetrominoType::O, (3, 18));
    g.fall_timer = 500;
    wf(&mut g).soft_drop();
    assert_eq!(g.tetromino.unwrap().pos, (3, 18));
    assert_eq!(g.fall_timer, 0);
    assert_eq!(count_blocks(&g.board), 0);
}

#[test]
fn fall_interval_goes_by_the_difficulty() {
    for (difficulty, interval) in
        [(Difficulty::Easy, 1_500_000), (Difficulty::Normal, 1_000_000), (Difficulty::Hard, 750_000)]
    {
        let mut g = game(TetrominoType::O, TetrominoType::O);
        g.difficulty = difficulty;
        wf(&mut g).fall_with(false, interval - 1, TetrominoType::L);
        assert_eq!(g.tetromino.unwrap().pos, (3, 0));
        assert_eq!(g.fall_timer, interval - 1);
        wf(&mut g).fall_with(false, 1, TetrominoType::L);
        assert_eq!(g.tetromino.unwrap().pos, (3, 1));
        assert_eq!(g.fall_timer, 0);
        // What is over the interval is kept, and one row is fallen a frame.
        wf(&mut g).fall_with(false, 2 * interval + 5, TetrominoType::L);
        assert_eq!(g.tetromino.unwrap().pos, (3, 2));
        assert_eq!(g.fall_timer, interval + 5);
        wf(&mut g).fall_with(false, 0, TetrominoType::L);
        assert_eq!(g.tetromino.unwrap().pos, (3, 3));
        assert_eq!(g.fall_timer, 5);
    }
}

#[test]
fn fall_interval_of_the_soft_drop() {
    for difficulty in [Difficulty::Easy, Difficulty::Normal, Difficulty::Hard] {
        let mut g = game(TetrominoType::O, TetrominoType::O);
        g.difficulty = difficulty;
        wf(&mut g).fall_with(true, 199_999, TetrominoType::L);
        assert_eq!(g.tetromino.unwrap().pos, (3, 0));
        wf(&mut g).fall_with(true, 1, TetrominoType::L);
        assert_eq!(g.tetromino.unwrap().pos, (3, 1));
        assert_eq!(g.fall_timer, 0);
    }
}

#[test]
fn fall_timer_stops_at_the_largest_value() {
    let mut g = game(TetrominoType::O, TetrominoType::O);
    g.fall_timer = u64::MAX - 10;
    wf(&mut g).fall_with(false, 100, TetrominoType::L);
    assert_eq!(g.fall_timer, u64::MAX - 1_000_000);
    assert_eq!(g.tetromino.unwrap().pos, (3, 1));
}

#[test]
fn a_piece_that_cannot_fall_is_locked() {
    let mut g = game(TetrominoType::O, TetrominoType::T);
    place(&mut g, TetrominoType::O, (3, 18));
    wf(&mut g).fall_with(false, 1_000_000, TetrominoType::L);
    assert_eq!(count_blocks(&g.board), 4);
    assert_eq!(g.board.get(3, 18).unwrap().id, 1);
    assert_eq!(g.tetromino.unwrap().t_type, TetrominoType::T);
    assert_eq!(g.tetromino.unwrap().pos, (3, 0));
    assert_eq!(g.fall_timer, 0);
}

#[test]
fn nothing_falls_without_a_piece() {
    let mut g = game(TetrominoType::O, TetrominoType::T);
    g.tetromino = None;
    g.line_clear_timer = 5;
    g.clearing_lines = vec![19];
    g.fall_timer = 3;
    wf(&mut g).fall_with(false, 5_000_000, TetrominoType::L);
    assert_eq!(g.fall_timer, 3);
    assert_eq!(count_blocks(&g.board), 0);
}

#[test]
fn hard_drop_locks_in_the_same_frame() {
    let mut g = game(TetrominoType::T, TetrominoType::O);
    let input = Input { hard_drop: true, ..Input::none() };
    wf(&mut g).update_with(&input, 16_000, TetrominoType::L, TetrominoType::J);
    let want = Some(Cell { color: Color::Purple, t_type: TetrominoType::T, id: 1 });
    for (x, y) in [(4, 18), (3, 19), (4, 19), (5, 19)] {
        assert_eq!(g.board.get(x, y), want);
    }
    assert_eq!(count_blocks(&g.board), 4);
    assert_eq!(g.next_piece_id, 2);
    assert_eq!(g.tetromino.unwrap().t_type, TetrominoType::O);
    assert_eq!(g.next_tetromino.unwrap().t_type, TetrominoType::L);
    assert_eq!(g.line_clear_timer, 0);
}

#[test]
fn hard_drop_lands_on_what_is_there() {
    let mut g = game(TetrominoType::O, TetrominoType::T);
    put(&mut g, 4, 10, 0);
    wf(&mut g).hard_drop_with(TetrominoType::L);
    for (x, y) in [(3, 8), (4, 8), (3, 9), (4, 9)] {
        assert_eq!(g.board.get(x, y).unwrap().id, 1);
    }
    assert_eq!(count_blocks(&g.board), 5);
}

#[test]
fn hard_drop_that_fills_a_row_starts_the_whole_delay() {
    let mut g = game(TetrominoType::I, TetrominoType::O);
    fill_row_but(&mut g, 19, &[3, 4, 5, 6], 1);
    let id = g.next_piece_id;
    let input = Input { hard_drop: true, ..Input::none() };
    wf(&mut g).update_with(&input, 5_000_000, TetrominoType::L, TetrominoType::J);
    assert_eq!(g.next_piece_id, id + 1);
    assert_eq!(g.clearing_lines, vec![19]);
    assert_eq!(g.line_clear_timer, LINE_CLEAR_DELAY);
    assert!(g.tetromino.is_none());
    assert_eq!(g.lines_cleared, 0);
    assert_eq!(count_blocks(&g.board), 10);
    // The next frame counts the delay down and moves nothing.
    wf(&mut g).update_with(&input, 810_000 - 1, TetrominoType::L, TetrominoType::J);
    assert_eq!(g.line_clear_timer, 1);
    assert_eq!(count_blocks(&g.board), 10);
    assert!(g.tetromino.is_none());
    // At zero the row goes and the next piece enters.
    wf(&mut g).update_with(&Input::none(), 1, TetrominoType::L, TetrominoType::J);
    assert_eq!(g.line_clear_timer, 0);
    assert!(g.clearing_lines.is_empty());
    assert_eq!(g.lines_cleared, 1);
    assert_eq!(count_blocks(&g.board), 0);
    assert_eq!(g.tetromino.unwrap().t_type, TetrominoType::O);
    assert_eq!(g.tetromino.unwrap().pos, (3, 0));
    assert_eq!(g.next_tetromino.unwrap().t_type, TetrominoType::L);
}

#[test]
fn hard_drop_is_carried_out_alone() {
    let mut g = game(TetrominoType::O, TetrominoType::T);
    let input = Input {
        hard_drop: true,
        left_pressed: true,
        rotate_cw: true,
        hold: true,
        mute: true,
        ..Input::none()
    };
    let commands = g.mus_mgr.commands.len();
    wf(&mut g).process_input_with(&input, 0, TetrominoType::L);
    assert_eq!(g.board.get(3, 18).unwrap().id, 1);
    assert_eq!(g.board.get(4, 19).unwrap().id, 1);
    assert!(g.hold_tetromino.is_none());
    assert_eq!(g.left_timer, 0);
    assert_eq!(g.mus_mgr.commands.len(), commands);
}

#[test]
fn hard_drop_draws_the_piece_after_next() {
    let mut g = game(TetrominoType::O, TetrominoType::T);
    wf(&mut g).hard_drop();
    assert_eq!(count_blocks(&g.board), 4);
    assert_eq!(g.tetromino.unwrap().t_type, TetrominoType::T);
    assert!(!g.next_tetromino.unwrap().t_type.is_bonus());
}

#[test]
fn first_hold_sets_the_piece_aside_and_spawns_next() {
    let mut g = game(TetrominoType::T, TetrominoType::O);
    wf(&mut g).move_tetromino((1, 4));
    wf(&mut g).turn(true);
    g.fall_timer = 9;
    wf(&mut g).hold_with(TetrominoType::L);
    let held = g.hold_tetromino.unwrap();
    assert_eq!(held.t_type, TetrominoType::T);
    assert_eq!(held.shape, TetrominoType::T.canonical_shape());
    assert_eq!(held.pos, (4, 4));
    assert_eq!(g.tetromino.unwrap().t_type, TetrominoType::O);
    assert_eq!(g.tetromino.unwrap().pos, (3, 0));
    assert_eq!(g.next_tetromino.unwrap().t_type, TetrominoType::L);
    assert_eq!(g.piece_statistics.get(TetrominoType::O), 1);
    assert_eq!(g.fall_timer, 0);
    // The piece that entered frees the hold.
    assert!(!g.hold_used);
}

#[test]
fn hold_swaps_once_until_a_piece_enters() {
    let mut g = game(TetrominoType::T, TetrominoType::O);
    wf(&mut g).hold_with(TetrominoType::L);
    wf(&mut g).move_tetromino((2, 6));
    // Second press: the T comes back to the place of entry, the O goes aside.
    wf(&mut g).hold_with(TetrominoType::J);
    assert!(g.hold_used);
    assert_eq!(g.tetromino.unwrap().t_type, TetrominoType::T);
    assert_eq!(g.tetromino.unwrap().pos, (3, 0));
    assert_eq!(g.tetromino.unwrap().shape, TetrominoType::T.canonical_shape());
    assert_eq!(g.hold_tetromino.unwrap().t_type, TetrominoType::O);
    // No piece entered, so the piece after next was not drawn.
    assert_eq!(g.next_tetromino.unwrap().t_type, TetrominoType::L);
    assert_eq!(g.piece_statistics.get(TetrominoType::T), 1);
    // Third press, before any piece entered: nothing.
    wf(&mut g).move_tetromino((0, 3));
    wf(&mut g).hold_with(TetrominoType::Z);
    assert!(g.hold_used);
    assert_eq!(g.tetromino.unwrap().t_type, TetrominoType::T);
    assert_eq!(g.tetromino.unwrap().pos, (3, 3));
    assert_eq!(g.hold_tetromino.unwrap().t_type, TetrominoType::O);
    assert_eq!(g.next_tetromino.unwrap().t_type, TetrominoType::L);
    // After the next piece entered, hold works again.
    wf(&mut g).hard_drop_with(TetrominoType::S);
    assert!(!g.hold_used);
    assert_eq!(g.tetromino.unwrap().t_type, TetrominoType::L);
    wf(&mut g).hold_with(TetrominoType::Z);
    assert!(g.hold_used);
    assert_eq!(g.tetromino.unwrap().t_type, TetrominoType::O);
    assert_eq!(g.hold_tetromino.unwrap().t_type, TetrominoType::L);
}

#[test]
fn hold_is_refused_where_the_held_piece_cannot_enter() {
    let mut g = game(TetrominoType::T, TetrominoType::O);
    place(&mut g, TetrominoType::T, (6, 10));
    g.hold_tetromino = Some(Tetromino { pos: (7, 7), ..Tetromino::new(TetrominoType::I) });
    put(&mut g, 5, 0, 0);
    wf(&mut g).hold_with(TetrominoType::L);
    assert_eq!(g.tetromino.unwrap().t_type, TetrominoType::T);
    assert_eq!(g.tetromino.unwrap().pos, (6, 10));
    assert_eq!(g.hold_tetromino.unwrap().t_type, TetrominoType::I);
    assert_eq!(g.hold_tetromino.unwrap().pos, (3, 0));
    // The wish is noted all the same.
    assert!(g.hold_used);
    assert!(!g.game_over);
}

#[test]
fn first_hold_with_no_room_for_the_next_piece_ends_the_game() {
    let mut g = game(TetrominoType::T, TetrominoType::O);
    place(&mut g, TetrominoType::T, (6, 10));
    put(&mut g, 3, 1, 0);
    wf(&mut g).hold_with(TetrominoType::L);
    assert!(g.game_over && !g.started);
    assert!(g.tetromino.is_none());
    assert_eq!(g.hold_tetromino.unwrap().t_type, TetrominoType::T);
    assert!(g.hold_used);
}

#[test]
fn hold_draws_the_piece_after_next() {
    let mut g = game(TetrominoType::T, TetrominoType::O);
    wf(&mut g).hold();
    assert_eq!(g.hold_tetromino.unwrap().t_type, TetrominoType::T);
    assert_eq!(g.tetromino.unwrap().t_type, TetrominoType::O);
    assert!(!g.next_tetromino.unwrap().t_type.is_bonus());
}

#[test]
fn the_music_follows_the_wishes() {
    let mut g = game(TetrominoType::T, TetrominoType::O);
    g.mus_mgr.take_commands();
    let input = Input { mute: true, next_song: true, ..Input::none() };
    wf(&mut g).process_input_with(&input, 0, TetrominoType::L);
    assert!(g.mus_mgr.muted);
    assert_eq!(
        g.mus_mgr.take_commands(),
        vec![
            MusicCommand::VolumeZero,
            MusicCommand::Clear,
            MusicCommand::Append(1),
            MusicCommand::VolumeHalf,
            MusicCommand::Play
        ]
    );
    wf(&mut g).steer_music(&Input { mute: true, ..Input::none() });
    assert!(!g.mus_mgr.muted);
    assert_eq!(g.mus_mgr.take_commands(), vec![MusicCommand::VolumeHalf]);
}

#[test]
fn a_paused_game_stands_still() {
    let mut g = game(TetrominoType::O, TetrominoType::T);
    g.mus_mgr.take_commands();
    let pause = Input { pause_toggle: true, left_pressed: true, hard_drop: true, ..Input::none() };
    wf(&mut g).update_with(&pause, 5_000_000, TetrominoType::L, TetrominoType::J);
    assert!(g.paused);
    assert!(g.mus_mgr.paused);
    assert_eq!(g.mus_mgr.take_commands(), vec![MusicCommand::Pause]);
    assert_eq!(g.tetromino.unwrap().pos, (3, 0));
    assert_eq!(g.fall_timer, 0);
    // While paused every wish but the one to go on is passed over.
    let busy = Input { left_pressed: true, soft_drop: true, rotate_cw: true, hold: true, ..Input::none() };
    wf(&mut g).update_with(&busy, 5_000_000, TetrominoType::L, TetrominoType::J);
    assert!(g.paused);
    assert_eq!(g.tetromino.unwrap().pos, (3, 0));
    assert_eq!(g.fall_timer, 0);
    assert!(g.hold_tetromino.is_none());
    // Going on picks up where the game stood, in the same frame.
    let go_on = Input { pause_toggle: true, ..Input::none() };
    wf(&mut g).update_with(&go_on, 1_000_000, TetrominoType::L, TetrominoType::J);
    assert!(!g.paused && !g.mus_mgr.paused);
    assert_eq!(g.mus_mgr.take_commands(), vec![MusicCommand::Play]);
    assert_eq!(g.tetromino.unwrap().pos, (3, 1));
}

#[test]
fn pausing_keeps_the_timers_of_effects_and_rows() {
    let mut g = game(TetrominoType::O, TetrominoType::T);
    g.tetromino = None;
    fill_row_but(&mut g, 19, &[], 1);
    g.clearing_lines = vec![19];
    g.line_clear_timer = 400;
    g.paused = true;
    wf(&mut g).update_with(&Input::none(), 1_000, TetrominoType::L, TetrominoType::J);
    assert_eq!(g.line_clear_timer, 400);
    assert_eq!(g.clearing_lines, vec![19]);
}

#[test]
fn a_game_that_is_over_takes_no_wishes() {
    let mut g = game(TetrominoType::O, TetrominoType::T);
    place(&mut g, TetrominoType::O, (3, 0));
    inv(&mut g).lock_tetromino_with(TetrominoType::L);
    assert!(g.game_over);
    g.mus_mgr.take_commands();
    let input = Input { pause_toggle: true, hard_drop: true, hold: true, mute: true, ..Input::none() };
    wf(&mut g).update_with(&input, 5_000_000, TetrominoType::L, TetrominoType::J);
    assert!(g.game_over && !g.started && !g.paused);
    assert_eq!(count_blocks(&g.board), 4);
    assert_eq!(g.next_piece_id, 2);
    assert!(g.mus_mgr.take_commands().is_empty());
    assert!(g.hold_tetromino.is_none());
}

#[test]
fn a_game_that_has_not_started_takes_no_wishes_but_pause() {
    let mut g = GameState::new();
    let input = Input { hard_drop: true, ..Input::none() };
    wf(&mut g).update_with(&input, 5_000_000, TetrominoType::L, TetrominoType::J);
    assert!(!g.started);
    assert_eq!(g.next_piece_id, 1);
    assert!(g.tetromino.is_none());
}

#[test]
fn while_rows_wait_the_effects_wait_too() {
    let mut g = game(TetrominoType::O, TetrominoType::O);
    for (x, y) in [(0, 15), (2, 15), (0, 17), (2, 17)] {
        place(&mut g, TetrominoType::O, (x, y));
        inv(&mut g).lock_tetromino_with(TetrominoType::O);
    }
    assert_eq!(g.active_squares.len(), 1);
    let id = g.next_piece_id;
    fill_row_but(&mut g, 19, &[3, 4, 5, 6], id);
    place(&mut g, TetrominoType::I, (3, 19));
    inv(&mut g).lock_tetromino_with(TetrominoType::O);
    assert_eq!(g.line_clear_timer, LINE_CLEAR_DELAY);
    wf(&mut g).update_with(&Input::none(), 100_000, TetrominoType::L, TetrominoType::J);
    assert_eq!(g.line_clear_timer, LINE_CLEAR_DELAY - 100_000);
    assert_eq!(g.active_squares[0].timer, BLINK_PERIOD);
    // The frame in which the rows go does not run the effects either.
    wf(&mut g).update_with(&Input::none(), 900_000, TetrominoType::L, TetrominoType::J);
    assert_eq!(g.lines_cleared, 1);
    assert_eq!(g.active_squares[0].timer, BLINK_PERIOD);
    // In play again, the effects run.
    wf(&mut g).update_with(&Input::none(), 100_000, TetrominoType::L, TetrominoType::J);
    assert_eq!(g.active_squares[0].timer, BLINK_PERIOD - 100_000);
}

#[test]
fn a_frame_runs_wishes_then_fall_then_effects() {
    let mut g = game(TetrominoType::O, TetrominoType::T);
    let snapshot = [[block(0); 4]; 4];
    g.active_squares.push(SquareEffect {
        x: 6,
        y: 16,
        is_gold: false,
        timer: 10,
        flash_on: true,
        blinks_remaining: 1,
        original: snapshot,
    });
    let input = Input { left_pressed: true, soft_drop: true, ..Input::none() };
    wf(&mut g).update_with(&input, 200_000, TetrominoType::L, TetrominoType::J);
    // One column to the left, one row by the soft drop, one row by the fall.
    assert_eq!(g.tetromino.unwrap().pos, (2, 2));
    assert_eq!(g.fall_timer, 0);
    assert_eq!(g.left_timer, INITIAL_HORIZONTAL_DELAY);
    // The effect finished in the same frame.
    assert!(g.active_squares.is_empty());
    assert_eq!(g.score, 200);
    assert_eq!(g.board.get(6, 16).unwrap().t_type, TetrominoType::BonusSilver);
    assert_eq!(g.board.get(9, 19).unwrap().t_type, TetrominoType::BonusSilver);
}

#[test]
fn a_hard_drop_and_a_fall_can_lock_two_pieces_in_a_frame() {
    let mut g = game(TetrominoType::O, TetrominoType::O);
    // A tower under the place of entry, two rows down.
    put(&mut g, 3, 2, 0);
    place(&mut g, TetrominoType::O, (7, 5));
    let input = Input { hard_drop: true, ..Input::none() };
    wf(&mut g).update_with(&input, 1_000_000, TetrominoType::L, TetrominoType::J);
    // The dropped piece is locked, and the piece that entered could not fall.
    assert_eq!(g.board.get(7, 18).unwrap().id, 1);
    assert_eq!(g.board.get(3, 0).unwrap().id, 2);
    assert_eq!(g.next_piece_id, 3);
    assert!(g.game_over);
}

#[test]
fn update_draws_pieces_as_they_are_needed() {
    let mut g = GameState::new();
    g.start_game();
    let drop = Input { hard_drop: true, ..Input::none() };
    let mut frames = 0;
    while !g.game_over && frames < 2_000 {
        assert!(g.has_headroom());
        assert!(g.is_well_formed());
        wf(&mut g).update(&drop, 16_000);
        if let Some(t) = g.tetromino {
            assert!(!t.t_type.is_bonus());
        }
        assert!(!g.next_tetromino.unwrap().t_type.is_bonus());
        frames += 1;
    }
    // Pieces dropped from the place of entry pile up until none can enter.
    assert!(g.game_over);
    assert!(!g.started);
    let entered: u32 = STANDARD.iter().map(|t| g.piece_statistics.get(*t)).sum();
    assert!(entered >= 5);
    assert!(g.next_piece_id >= 5);
}

#[test]
fn process_input_draws_the_piece_after_next() {
    let mut g = game(TetrominoType::O, TetrominoType::T);
    let input = Input { hold: true, right_pressed: true, ..Input::none() };
    wf(&mut g).process_input(&input, 0);
    assert_eq!(g.hold_tetromino.unwrap().t_type, TetrominoType::O);
    assert_eq!(g.hold_tetromino.unwrap().pos, (4, 0));
    assert_eq!(g.tetromino.unwrap().t_type, TetrominoType::T);
    assert!(!g.next_tetromino.unwrap().t_type.is_bonus());
}

#[test]
fn headroom_is_there_at_the_start_and_gone_at_the_limits() {
    let mut g = game(TetrominoType::O, TetrominoType::T);
    assert!(g.has_headroom());
    g.next_piece_id = u32::MAX - 2;
    assert!(g.has_headroom());
    g.next_piece_id = u32::MAX - 1;
    assert!(!g.has_headroom());
    g.next_piece_id = 1;
    g.lines_cleared = u32::MAX - 20;
    assert!(g.has_headroom());
    g.lines_cleared = u32::MAX - 19;
    assert!(!g.has_headroom());
    g.lines_cleared = 0;
    g.score = u32::MAX - 500 * 238;
    assert!(g.has_headroom());
    g.score += 1;
    assert!(!g.has_headroom());
    g.score = 0;
    g.piece_statistics.counts[6] = u32::MAX - 2;
    assert!(g.has_headroom());
    g.piece_statistics.counts[6] = u32::MAX - 1;
    assert!(!g.has_headroom());
}

#[test]
fn the_falling_piece_stays_on_free_squares_of_the_field() {
    // A long game with wishes from a fixed sequence.
    let mut g = game(TetrominoType::T, TetrominoType::L);
    let mut seed: u32 = 12345;
    let mut kinds = STANDARD.iter().cycle();
    for _ in 0..10_000 {
        seed = seed.wrapping_mul(1_103_515_245).wrapping_add(12_345);
        let bits = seed >> 16;
        let input = Input {
            pause_toggle: false,
            hard_drop: bits % 61 == 0,
            left_pressed: bits & 1 != 0,
            left_held: bits & 2 != 0,
            right_pressed: bits & 4 != 0,
            right_held: bits & 8 != 0,
            rotate_ccw: bits & 16 != 0,
            rotate_cw: bits & 32 != 0,
            soft_drop: bits & 64 != 0,
            mute: false,
            next_song: false,
            hold: bits % 37 == 0,
        };
        if g.game_over {
            g.start_game_with(*kinds.next().unwrap(), *kinds.next().unwrap());
        }
        g.mus_mgr.take_commands();
        assert!(g.has_headroom());
        let ids_before = g.next_piece_id;
        wf(&mut g).update_with(&input, 150_000, *kinds.next().unwrap(), *kinds.next().unwrap());
        assert!(g.is_well_formed());
        assert!(g.next_piece_id >= ids_before && g.next_piece_id <= ids_before + 2);
        if let Some(t) = g.tetromino {
            for (x, y) in cells_of(&t) {
                assert!((0..10).contains(&x) && (0..20).contains(&y));
            }
        }
        if g.started {
            assert!(g.next_tetromino.is_some());
            assert!(g.tetromino.is_some() || g.line_clear_timer > 0);
        }
        assert_eq!(g.clearing_lines.is_empty(), g.line_clear_timer == 0);
        for y in 0..20 {
            for x in 0..10 {
                if let Some(c) = g.board.get(x, y) {
                    assert!(c.id < g.next_piece_id);
                }
            }
        }
        for (i, a) in g.active_squares.iter().enumerate() {
            assert!(a.x <= 6 && a.y <= 16);
            for b in &g.active_squares[..i] {
                assert!((a.x, a.y) != (b.x, b.y));
            }
        }
    }
    assert!(g.lines_cleared > 0 || g.next_piece_id > 1);
}

#[test]
fn can_move_answers_for_any_step() {
    let mut g = game(TetrominoType::O, TetrominoType::T);
    assert!(wf(&mut g).can_move(0, 0));
    assert!(wf(&mut g).can_move(5, 18));
    assert!(wf(&mut g).can_move(-3, 0));
    assert!(!wf(&mut g).can_move(-4, 0));
    assert!(!wf(&mut g).can_move(6, 0));
    assert!(!wf(&mut g).can_move(0, 19));
    assert!(!wf(&mut g).can_move(0, -1));
    for far in [i32::MIN, -20, -10, 10, 20, i32::MAX] {
        assert!(!wf(&mut g).can_move(far, 0));
        assert!(!wf(&mut g).can_move(far, far));
    }
    assert!(wf(&mut g).can_move(0, 10));
    for far in [i32::MIN, -20, 20, i32::MAX] {
        assert!(!wf(&mut g).can_move(0, far));
    }
    put(&mut g, 5, 10, 0);
    assert!(!wf(&mut g).can_move(1, 9));
    assert!(!wf(&mut g).can_move(2, 9));
    assert!(wf(&mut g).can_move(3, 9));
    assert!(wf(&mut g).can_move(1, 8));
    g.tetromino = None;
    g.line_clear_timer = 1;
    g.clearing_lines = vec![0];
    assert!(!wf(&mut g).can_move(0, 0));
}

#[test]
fn try_move_moves_only_where_it_can() {
    let mut g = game(TetrominoType::O, TetrominoType::T);
    assert!(wf(&mut g).try_move(2, 3));
    assert_eq!(g.tetromino.unwrap().pos, (5, 3));
    assert!(!wf(&mut g).try_move(4, 0));
    assert_eq!(g.tetromino.unwrap().pos, (5, 3));
    assert!(!wf(&mut g).try_move(i32::MAX, i32::MIN));
    assert_eq!(g.tetromino.unwrap().pos, (5, 3));
    assert!(wf(&mut g).try_move(-5, 15));
    assert_eq!(g.tetromino.unwrap().pos, (0, 18));
}

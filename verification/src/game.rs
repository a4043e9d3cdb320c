//! A game: the board, the pieces, the timers and the counters, and the
//! operations that the rules allow on them.
//!
//! Every operation is specified by the function of `GameView` that bears its
//! name: the game after the operation is that function of the game before.
//! An operation that draws the next piece at random has a twin, with `_with`
//! at the end of its name, that is given the kind that was drawn.
//!
//! No operation lets a counter run over. Each asks of its caller that the
//! counters of the game that follows can be stored (`GameView::fits`), and
//! no more than that. A game for which `has_headroom` holds has room for a
//! frame, whatever the frame brings.

use crate::board::{cell_blocked, collides, in_grid, lemma_ascending_rows_are_few, Board};
use crate::geometry::{
    lemma_canonical_is_orientation,
    lemma_orientation_reach,
    lemma_rotate_keeps_orientation,
    piece_view,
    rotate_cells,
    rotate_shape,
    shape_cells,
    Shape,
    Tetromino,
    TetrominoType,
    GRID_HEIGHT,
    GRID_WIDTH,
    SPAWN_X,
    SPAWN_Y,
};
use crate::input::Input;
use crate::invariants::{lemma_anchor_near_field, lemma_locked_ids, lemma_without_rows_ids};
use crate::music::MusicManager;
use crate::random::random_piece_type;
use crate::rules::{brought_back, landing, GameView};
use crate::settings::{compute_fall_interval, Difficulty, GameMode};
use crate::squares::{
    advance_effects,
    detect_squares,
    effect_views,
    SquareEffect,
    GOLD_POINTS,
    SCAN_COLUMNS,
    SCAN_ROWS,
};
use crate::statistics::PieceStatistics;
use crate::timing::{
    count_down,
    run_stopwatch,
    HORIZONTAL_REPEAT_DELAY,
    INITIAL_HORIZONTAL_DELAY,
    LINE_CLEAR_DELAY,
};
use vstd::prelude::*;

verus! {

/// A game.
pub struct GameState {
    /// The locked blocks.
    pub board: Board,
    /// The piece that falls, if there is one.
    pub tetromino: Option<Tetromino>,
    /// The piece that comes next.
    pub next_tetromino: Option<Tetromino>,
    /// The piece that was set aside.
    pub hold_tetromino: Option<Tetromino>,
    /// True when a piece was set aside since the last piece entered.
    pub hold_used: bool,
    pub started: bool,
    pub paused: bool,
    pub game_over: bool,
    pub lines_cleared: u32,
    pub score: u32,
    /// Time until a piece that runs to the left takes its next step.
    pub left_timer: u64,
    /// Time until a piece that runs to the right takes its next step.
    pub right_timer: u64,
    /// Time since the piece last fell by a row.
    pub fall_timer: u64,
    /// Time until the full rows are taken out; zero when none wait.
    pub line_clear_timer: u64,
    /// The full rows that wait to be taken out.
    pub clearing_lines: Vec<usize>,
    /// The bonus squares that blink.
    pub active_squares: Vec<SquareEffect>,
    /// The number that the next locked piece gets.
    pub next_piece_id: u32,
    pub mus_mgr: MusicManager,
    /// How many pieces of each kind have entered the field.
    pub piece_statistics: PieceStatistics,
    pub player_name: String,
    pub difficulty: Difficulty,
    pub game_mode: GameMode,
}

impl View for GameState {
    type V = GameView;

    open spec fn view(&self) -> GameView {
        GameView {
            board: self.board@,
            tetromino: piece_view(self.tetromino),
            next_tetromino: piece_view(self.next_tetromino),
            hold_tetromino: piece_view(self.hold_tetromino),
            hold_used: self.hold_used,
            started: self.started,
            paused: self.paused,
            game_over: self.game_over,
            lines_cleared: self.lines_cleared as nat,
            score: self.score as nat,
            left_timer: self.left_timer as nat,
            right_timer: self.right_timer as nat,
            fall_timer: self.fall_timer as nat,
            line_clear_timer: self.line_clear_timer as nat,
            clearing_lines: self.clearing_lines@,
            active_squares: effect_views(self.active_squares@),
            next_piece_id: self.next_piece_id as nat,
            music: self.mus_mgr@,
            piece_statistics: self.piece_statistics@,
            player_name: self.player_name@,
            difficulty: self.difficulty,
            game_mode: self.game_mode,
        }
    }
}

impl GameState {
    /// What holds of every game between two operations.
    pub open spec fn wf(&self) -> bool {
        self@.wf()
    }

    /// A game that has not started.
    pub fn new() -> (s: GameState)
        ensures
            s@ == GameView::initial(),
            s.wf(),
    {
        let s = GameState {
            board: Board::new(),
            tetromino: None,
            next_tetromino: None,
            hold_tetromino: None,
            hold_used: false,
            started: false,
            paused: false,
            game_over: false,
            lines_cleared: 0,
            score: 0,
            left_timer: 0,
            right_timer: 0,
            fall_timer: 0,
            line_clear_timer: 0,
            clearing_lines: Vec::new(),
            active_squares: Vec::new(),
            next_piece_id: 1,
            mus_mgr: MusicManager::new(),
            piece_statistics: PieceStatistics::new(),
            player_name: "Player".to_owned(),
            difficulty: Difficulty::Normal,
            game_mode: GameMode::Classic,
        };
        proof {
            GameView::lemma_initial();
            assert(s@ =~~= GameView::initial());
        }
        s
    }

    /// Tests whether a shape anchored at `pos` has a cell off the field or on
    /// a taken square of the board.
    pub fn check_collision(&self, shape: &Shape, pos: (i32, i32)) -> (r: bool)
        ensures
            r == collides(self@.board, shape_cells(*shape), (pos.0 as int, pos.1 as int)),
    {
        self.board.collides(shape, pos)
    }

    /// Moves the falling piece by `delta`, whatever is there. The caller has
    /// tested the move with `check_collision`; all that is asked here is that
    /// the piece stays on the field.
    pub fn move_tetromino(&mut self, delta: (i32, i32))
        requires
            old(self).wf(),
            old(self)@.shift(delta.0 as int, delta.1 as int).wf(),
        ensures
            final(self)@ == old(self)@.shift(delta.0 as int, delta.1 as int),
            final(self).wf(),
    {
        if let Some(mut t) = self.tetromino {
            proof {
                lemma_anchor_near_field(t@);
                lemma_anchor_near_field(t@.shifted(delta.0 as int, delta.1 as int));
            }
            t.pos = (t.pos.0 + delta.0, t.pos.1 + delta.1);
            self.tetromino = Some(t);
        }
        assert(self@ =~~= old(self)@.shift(delta.0 as int, delta.1 as int));
    }

    /// Gives the falling piece another shape, whatever is there. The shape
    /// is one that a turn has given and `check_collision` has admitted.
    pub fn set_tetromino_shape(&mut self, shape: Shape)
        requires
            old(self).wf(),
            old(self)@.with_shape(shape_cells(shape)).wf(),
        ensures
            final(self)@ == old(self)@.with_shape(shape_cells(shape)),
            final(self).wf(),
    {
        if let Some(mut t) = self.tetromino {
            t.shape = shape;
            self.tetromino = Some(t);
        }
        assert(self@ =~~= old(self)@.with_shape(shape_cells(shape)));
    }

    /// Lets the next piece enter; `following` becomes the piece after it.
    pub fn spawn_with(&mut self, following: TetrominoType)
        requires
            old(self)@.inv(),
            following.is_standard(),
            old(self)@.spawn(following).fits(),
        ensures
            final(self)@ == old(self)@.spawn(following),
            final(self).wf(),
    {
        proof {
            old(self)@.lemma_spawn(following);
        }
        if !self.started {
            return ;
        }
        if let Some(next_t) = self.next_tetromino {
            if self.board.collides(&next_t.shape, next_t.pos) {
                self.game_over = true;
                self.started = false;
            } else {
                self.tetromino = Some(next_t);
                assert(old(self)@.spawn(following).piece_statistics[next_t.t_type] + 0 <= u32::MAX);
                self.piece_statistics.record(next_t.t_type);
                self.next_tetromino = Some(Tetromino::new(following));
                self.hold_used = false;
                self.fall_timer = 0;
            }
        }
        assert(self@ =~~= old(self)@.spawn(following));
    }

    /// Lets the next piece enter and draws the piece after it.
    pub fn spawn_new_tetromino(&mut self)
        requires
            old(self)@.inv(),
            forall|following: TetrominoType|
                following.is_standard() ==> (#[trigger] old(self)@.spawn(following)).fits(),
        ensures
            exists|following: TetrominoType|
                following.is_standard() && final(self)@ == #[trigger] old(self)@.spawn(following),
            final(self).wf(),
    {
        let following = random_piece_type();
        self.spawn_with(following);
    }

    /// Scans the board for bonus squares and starts an effect for each one
    /// that has none yet.
    pub fn check_for_4x4_squares(&mut self)
        requires
            old(self)@.inv(),
        ensures
            final(self)@ == old(self)@.detect(),
            final(self)@.inv(),
            old(self).wf() ==> final(self).wf(),
    {
        proof {
            old(self)@.lemma_detect();
        }
        detect_squares(&self.board, &mut self.active_squares);
        assert(self@ =~~= old(self)@.detect());
    }

    /// Lets `dt` pass on the bonus squares that blink. Those that finish are
    /// converted and score.
    pub fn update_square_effects(&mut self, dt: u64)
        requires
            old(self)@.inv(),
            old(self)@.advance_effects(dt as nat).score <= u32::MAX,
        ensures
            final(self)@ == old(self)@.advance_effects(dt as nat),
            final(self)@.inv(),
            old(self).wf() ==> final(self).wf(),
    {
        proof {
            old(self)@.lemma_advance_effects(dt as nat);
        }
        advance_effects(&mut self.board, &mut self.active_squares, &mut self.score, dt);
        assert(self@ =~~= old(self)@.advance_effects(dt as nat));
    }

    /// Locks the falling piece; `following` is the kind of the piece that is
    /// drawn if the next piece enters.
    pub fn lock_tetromino_with(&mut self, following: TetrominoType)
        requires
            old(self)@.inv(),
            following.is_standard(),
            old(self)@.lock(following).fits(),
        ensures
            final(self)@ == old(self)@.lock(following),
            final(self).wf(),
    {
        proof {
            old(self)@.lemma_lock_counts(following);
            old(self)@.lemma_lock(following);
        }
        if let Some(tetro) = self.tetromino {
            let id: u32 = self.next_piece_id;
            self.next_piece_id += 1;
            self.board.lock(&tetro, id);
            self.tetromino = None;
            proof {
                lemma_locked_ids(old(self)@.board, tetro@, id);
            }
        }
        let ghost placed = self@;
        let full_rows = self.board.scan_full_rows();
        if !full_rows.is_empty() {
            self.clearing_lines = full_rows;
            self.line_clear_timer = LINE_CLEAR_DELAY;
            assert(self@ =~~= old(self)@.lock(following));
        } else {
            assert(placed.inv());
            self.spawn_with(following);
            self.check_for_4x4_squares();
            assert(self@ =~~= old(self)@.lock(following));
        }
    }

    /// Locks the falling piece. Where the next piece enters, the piece after
    /// it is drawn.
    pub fn lock_tetromino(&mut self)
        requires
            old(self)@.inv(),
            forall|following: TetrominoType|
                following.is_standard() ==> (#[trigger] old(self)@.lock(following)).fits(),
        ensures
            exists|following: TetrominoType|
                following.is_standard() && final(self)@ == #[trigger] old(self)@.lock(following),
            final(self).wf(),
    {
        let following = random_piece_type();
        self.lock_tetromino_with(following);
    }

    /// Takes out the rows that wait; `following` is the kind of the piece
    /// that is drawn if the next piece enters.
    pub fn clear_lines_delayed_with(&mut self, following: TetrominoType)
        requires
            old(self)@.inv(),
            following.is_standard(),
            old(self)@.clear_lines(following).fits(),
        ensures
            final(self)@ == old(self)@.clear_lines(following),
            final(self).wf(),
    {
        proof {
            old(self)@.lemma_clear_lines(following);
            lemma_without_rows_ids(
                old(self)@.board,
                old(self)@.clearing_lines,
                old(self)@.next_piece_id,
            );
        }
        self.board.remove_rows(&self.clearing_lines);
        self.lines_cleared += self.clearing_lines.len() as u32;
        self.clearing_lines.clear();
        self.line_clear_timer = 0;
        let ghost cleared = self@;
        if let Some(next) = self.next_tetromino {
            if self.board.collides(&next.shape, next.pos) {
                self.game_over = true;
                self.started = false;
                assert(self@ =~~= old(self)@.clear_lines(following));
                return ;
            }
        }
        assert(cleared.inv());
        self.spawn_with(following);
        self.check_for_4x4_squares();
        assert(self@ =~~= old(self)@.clear_lines(following));
    }

    /// Takes out the rows that wait. Where the next piece enters, the piece
    /// after it is drawn.
    pub fn clear_lines_delayed(&mut self)
        requires
            old(self)@.inv(),
            forall|following: TetrominoType|
                following.is_standard() ==> (#[trigger] old(self)@.clear_lines(following)).fits(),
        ensures
            exists|following: TetrominoType|
                following.is_standard() && final(self)@ == #[trigger] old(self)@.clear_lines(following),
            final(self).wf(),
    {
        let following = random_piece_type();
        self.clear_lines_delayed_with(following);
    }

    /// Tests whether there is a falling piece that can be where it is after
    /// a move by `(dx, dy)`.
    pub fn can_move(&self, dx: i32, dy: i32) -> (r: bool)
        requires
            self.wf(),
        ensures
            r == self@.can_shift(dx as int, dy as int),
    {
        match self.tetromino {
            Some(t) => {
                proof {
                    lemma_anchor_near_field(t@);
                }
                let width: i32 = GRID_WIDTH as i32;
                let height: i32 = GRID_HEIGHT as i32;
                if dx <= -width || dx >= width || dy <= -height || dy >= height {
                    // A move by the width or the height of the field leaves the field.
                    proof {
                        let moved = t@.shifted(dx as int, dy as int);
                        assert(in_grid(t@.cell(0).0, t@.cell(0).1));
                        assert(cell_blocked(self@.board, moved.cells, moved.pos, 0));
                    }
                    false
                } else {
                    !self.board.collides(&t.shape, (t.pos.0 + dx, t.pos.1 + dy))
                }
            },
            None => false,
        }
    }

    /// Moves the falling piece by `(dx, dy)` if it can be there, and tells
    /// whether it did.
    pub fn try_move(&mut self, dx: i32, dy: i32) -> (moved: bool)
        requires
            old(self).wf(),
        ensures
            moved == old(self)@.can_shift(dx as int, dy as int),
            final(self)@ == (if moved {
                old(self)@.shift(dx as int, dy as int)
            } else {
                old(self)@
            }),
            final(self).wf(),
    {
        if self.can_move(dx, dy) {
            proof {
                self@.lemma_shift(dx as int, dy as int);
            }
            self.move_tetromino((dx, dy));
            true
        } else {
            false
        }
    }

    /// Steers to the left: `pressed` in the frame in which the player asks
    /// for it, `held` for as long as the player keeps asking.
    pub fn steer_left(&mut self, pressed: bool, held: bool, dt: u64)
        requires
            old(self).wf(),
        ensures
            final(self)@ == old(self)@.steer_left(pressed, held, dt as nat),
            final(self).wf(),
    {
        proof {
            old(self)@.lemma_steer(pressed, held, dt as nat);
        }
        if pressed {
            if self.try_move(-1, 0) {
                self.left_timer = INITIAL_HORIZONTAL_DELAY;
            }
        } else if held {
            self.left_timer = count_down(self.left_timer, dt);
            if self.left_timer == 0 {
                if self.try_move(-1, 0) {
                    self.left_timer = HORIZONTAL_REPEAT_DELAY;
                }
            }
        } else {
            self.left_timer = 0;
        }
        assert(self@ =~~= old(self)@.steer_left(pressed, held, dt as nat));
    }

    /// Steers to the right: `pressed` in the frame in which the player asks
    /// for it, `held` for as long as the player keeps asking.
    pub fn steer_right(&mut self, pressed: bool, held: bool, dt: u64)
        requires
            old(self).wf(),
        ensures
            final(self)@ == old(self)@.steer_right(pressed, held, dt as nat),
            final(self).wf(),
    {
        proof {
            old(self)@.lemma_steer(pressed, held, dt as nat);
        }
        if pressed {
            if self.try_move(1, 0) {
                self.right_timer = INITIAL_HORIZONTAL_DELAY;
            }
        } else if held {
            self.right_timer = count_down(self.right_timer, dt);
            if self.right_timer == 0 {
                if self.try_move(1, 0) {
                    self.right_timer = HORIZONTAL_REPEAT_DELAY;
                }
            }
        } else {
            self.right_timer = 0;
        }
        assert(self@ =~~= old(self)@.steer_right(pressed, held, dt as nat));
    }

    /// Turns the falling piece by a quarter if the turned piece can be where
    /// the piece is.
    pub fn turn(&mut self, clockwise: bool)
        requires
            old(self).wf(),
        ensures
            final(self)@ == old(self)@.turn(clockwise),
            final(self).wf(),
    {
        proof {
            old(self)@.lemma_turn(clockwise);
        }
        if let Some(curr) = self.tetromino {
            proof {
                lemma_anchor_near_field(curr@);
                lemma_rotate_keeps_orientation(curr@.cells, curr.t_type, clockwise);
                lemma_orientation_reach(
                    rotate_cells(curr@.cells, curr.t_type, clockwise),
                    curr.t_type,
                );
            }
            let new_shape = rotate_shape(&curr.shape, curr.t_type, clockwise);
            if !self.board.collides(&new_shape, curr.pos) {
                self.set_tetromino_shape(new_shape);
            }
        }
        assert(self@ =~~= old(self)@.turn(clockwise));
    }

    /// Drops the piece softly: the fall starts anew and the piece moves down
    /// a row if it can.
    pub fn soft_drop(&mut self)
        requires
            old(self).wf(),
        ensures
            final(self)@ == old(self)@.soft_drop(),
            final(self).wf(),
    {
        proof {
            old(self)@.lemma_soft_drop();
        }
        self.fall_timer = 0;
        self.try_move(0, 1);
        assert(self@ =~~= old(self)@.soft_drop());
    }

    /// Sets the falling piece aside, or takes the piece that was set aside;
    /// `following` is the kind of the piece that is drawn if the next piece
    /// enters.
    pub fn hold_with(&mut self, following: TetrominoType)
        requires
            old(self).wf(),
            following.is_standard(),
            old(self)@.hold(following).fits(),
        ensures
            final(self)@ == old(self)@.hold(following),
            final(self).wf(),
    {
        proof {
            old(self)@.lemma_hold(following);
        }
        if let Some(curr) = self.tetromino {
            if !self.hold_used {
                self.hold_used = true;
                let mut current_piece = curr;
                current_piece.shape = curr.t_type.canonical_shape();
                assert(current_piece@ =~= curr@.unturned());
                match self.hold_tetromino {
                    Some(held) => {
                        let mut hold_piece = held;
                        hold_piece.shape = held.t_type.canonical_shape();
                        hold_piece.pos = (SPAWN_X, SPAWN_Y);
                        assert(hold_piece@ =~= brought_back(held@));
                        if self.board.collides(&hold_piece.shape, hold_piece.pos) {
                            self.hold_tetromino = Some(hold_piece);
                        } else {
                            self.hold_tetromino = Some(current_piece);
                            self.tetromino = Some(hold_piece);
                        }
                    },
                    None => {
                        self.hold_tetromino = Some(current_piece);
                        self.tetromino = None;
                        proof {
                            lemma_canonical_is_orientation(curr.t_type);
                        }
                        self.spawn_with(following);
                    },
                }
            }
        }
        assert(self@ =~~= old(self)@.hold(following));
    }

    /// Sets the falling piece aside, or takes the piece that was set aside.
    /// Where the next piece enters, the piece after it is drawn.
    pub fn hold(&mut self)
        requires
            old(self).wf(),
            forall|following: TetrominoType|
                following.is_standard() ==> (#[trigger] old(self)@.hold(following)).fits(),
        ensures
            exists|following: TetrominoType|
                following.is_standard() && final(self)@ == #[trigger] old(self)@.hold(following),
            final(self).wf(),
    {
        let following = random_piece_type();
        self.hold_with(following);
    }

    /// Drops the falling piece as far as it goes and locks it there;
    /// `following` is the kind of the piece that is drawn if the next piece
    /// enters.
    pub fn hard_drop_with(&mut self, following: TetrominoType)
        requires
            old(self).wf(),
            following.is_standard(),
            old(self)@.hard_drop(following).fits(),
        ensures
            final(self)@ == old(self)@.hard_drop(following),
            final(self).wf(),
    {
        proof {
            old(self)@.lemma_hard_drop_counts(following);
            old(self)@.lemma_hard_drop(following);
        }
        if let Some(landed) = self.landing_piece() {
            self.tetromino = Some(landed);
            assert(self@ =~~= (GameView {
                tetromino: Some(landing(old(self)@.board, old(self)@.tetromino->0)),
                ..old(self)@
            }));
        }
        self.lock_tetromino_with(following);
    }

    /// Drops the falling piece as far as it goes and locks it there. Where
    /// the next piece enters, the piece after it is drawn.
    pub fn hard_drop(&mut self)
        requires
            old(self).wf(),
            forall|following: TetrominoType|
                following.is_standard() ==> (#[trigger] old(self)@.hard_drop(following)).fits(),
        ensures
            exists|following: TetrominoType|
                following.is_standard() && final(self)@ == #[trigger] old(self)@.hard_drop(following),
            final(self).wf(),
    {
        let following = random_piece_type();
        self.hard_drop_with(following);
    }

    /// Carries out the wishes of one frame; `following` is the kind of the
    /// piece that is drawn if the next piece enters.
    pub fn process_input_with(&mut self, input: &Input, dt: u64, following: TetrominoType)
        requires
            old(self).wf(),
            following.is_standard(),
            old(self)@.process_input(*input, dt as nat, following).fits(),
        ensures
            final(self)@ == old(self)@.process_input(*input, dt as nat, following),
            final(self).wf(),
    {
        if input.hard_drop {
            self.hard_drop_with(following);
            return ;
        }
        self.apply_moves(input, dt);
        self.steer_music(input);
        if input.hold {
            self.hold_with(following);
        }
    }

    /// Carries out the turns that the player wishes: first
    /// counter-clockwise, then clockwise.
    pub fn apply_turns(&mut self, input: &Input)
        requires
            old(self).wf(),
        ensures
            final(self)@ == old(self)@.turns(*input),
            final(self).wf(),
    {
        if input.rotate_ccw {
            self.turn(false);
        }
        if input.rotate_cw {
            self.turn(true);
        }
    }

    /// Carries out the moves of one frame: steers to the left and to the
    /// right, turns, and drops softly.
    pub fn apply_moves(&mut self, input: &Input, dt: u64)
        requires
            old(self).wf(),
        ensures
            final(self)@ == old(self)@.moves(*input, dt as nat),
            final(self).wf(),
    {
        self.steer_left(input.left_pressed, input.left_held, dt);
        self.steer_right(input.right_pressed, input.right_held, dt);
        self.apply_turns(input);
        if input.soft_drop {
            self.soft_drop();
        }
    }

    /// Lets the music follow the player's wishes.
    pub fn steer_music(&mut self, input: &Input)
        requires
            old(self).wf(),
        ensures
            final(self)@ == old(self)@.steer_music(*input),
            final(self).wf(),
    {
        if input.mute {
            self.mus_mgr.mute();
        }
        if input.next_song {
            self.mus_mgr.play_song();
        }
        assert(self@ =~~= old(self)@.steer_music(*input));
    }

    /// Carries out the wishes of one frame. Where the next piece enters, the
    /// piece after it is drawn.
    pub fn process_input(&mut self, input: &Input, dt: u64)
        requires
            old(self).wf(),
            forall|following: TetrominoType|
                following.is_standard() ==> (#[trigger] old(self)@.process_input(
                    *input,
                    dt as nat,
                    following,
                )).fits(),
        ensures
            exists|following: TetrominoType|
                following.is_standard() && final(self)@ == #[trigger] old(self)@.process_input(
                    *input,
                    dt as nat,
                    following,
                ),
            final(self).wf(),
    {
        let following = random_piece_type();
        self.process_input_with(input, dt, following);
    }

    /// Lets the piece fall by itself for `dt`; `following` is the kind of
    /// the piece that is drawn if the next piece enters.
    pub fn fall_with(&mut self, soft_drop: bool, dt: u64, following: TetrominoType)
        requires
            old(self).wf(),
            following.is_standard(),
            old(self)@.fall(soft_drop, dt as nat, following).fits(),
        ensures
            final(self)@ == old(self)@.fall(soft_drop, dt as nat, following),
            final(self).wf(),
    {
        proof {
            old(self)@.lemma_fall(soft_drop, dt as nat, following);
        }
        if self.tetromino.is_some() {
            let fall_interval = compute_fall_interval(self.difficulty, soft_drop);
            self.fall_timer = run_stopwatch(self.fall_timer, dt);
            if self.fall_timer >= fall_interval {
                self.fall_timer -= fall_interval;
                if !self.try_move(0, 1) {
                    self.lock_tetromino_with(following);
                }
            }
        }
        assert(self@ =~~= old(self)@.fall(soft_drop, dt as nat, following));
    }

    /// Tests whether there is room enough for whatever a frame brings. Where
    /// there is, the game can be stored after any frame and after any single
    /// operation.
    pub fn has_headroom(&self) -> (r: bool)
        ensures
            r == self@.has_headroom(),
            r && self.wf() ==> forall|input: Input, dt: nat, first: TetrominoType, second: TetrominoType|
                (#[trigger] self@.tick(input, dt, first, second)).fits(),
    {
        let squares: u128 = self.active_squares.len() as u128 + 2 * (SCAN_COLUMNS * SCAN_ROWS) as u128;
        let points: u128 = GOLD_POINTS as u128;
        assert(points == 500 && squares <= usize::MAX + 238);
        let r = self.next_piece_id <= u32::MAX - 2 && self.piece_statistics.has_room(2)
            && self.lines_cleared <= u32::MAX - GRID_HEIGHT as u32 && self.score as u128 + points
            * squares <= u32::MAX as u128;
        proof {
            if r && self.wf() {
                assert forall|input: Input, dt: nat, first: TetrominoType, second: TetrominoType|
                    (#[trigger] self@.tick(input, dt, first, second)).fits() by {
                    self@.lemma_headroom_for_tick(input, dt, first, second);
                }
            }
        }
        r
    }

    /// Plays one frame; `first` and `second` are the kinds of the pieces
    /// that are drawn if pieces enter.
    pub fn update_with(&mut self, input: &Input, dt: u64, first: TetrominoType, second: TetrominoType)
        requires
            old(self).wf(),
            first.is_standard(),
            second.is_standard(),
            old(self)@.tick(*input, dt as nat, first, second).fits(),
        ensures
            final(self)@ == old(self)@.tick(*input, dt as nat, first, second),
            final(self).wf(),
    {
        proof {
            old(self)@.lemma_tick(*input, dt as nat, first, second);
        }
        if !self.game_over && input.pause_toggle {
            self.paused = !self.paused;
            self.mus_mgr.pause();
        }
        let ghost now = self@;
        assert(now =~~= old(self)@.toggle_pause(input.pause_toggle));
        if self.paused || !self.started || self.game_over {
            return ;
        }
        if self.line_clear_timer > 0 {
            let left: u64 = count_down(self.line_clear_timer, dt);
            if left == 0 {
                proof {
                    lemma_ascending_rows_are_few(self@.clearing_lines);
                }
                self.clear_lines_delayed_with(first);
            } else {
                self.line_clear_timer = left;
                assert(self@ =~~= (GameView { line_clear_timer: left as nat, ..now }));
            }
            return ;
        }
        proof {
            old(self)@.lemma_steps_of_tick_fit(*input, dt as nat, first, second);
        }
        self.process_input_with(input, dt, first);
        self.fall_with(input.soft_drop, dt, second);
        self.update_square_effects(dt);
    }

    /// Plays one frame. Where pieces enter, the pieces after them are drawn.
    pub fn update(&mut self, input: &Input, dt: u64)
        requires
            old(self).wf(),
            forall|first: TetrominoType, second: TetrominoType|
                first.is_standard() && second.is_standard() ==> (#[trigger] old(self)@.tick(
                    *input,
                    dt as nat,
                    first,
                    second,
                )).fits(),
        ensures
            exists|first: TetrominoType, second: TetrominoType|
                first.is_standard() && second.is_standard() && final(self)@ == #[trigger] old(
                    self,
                )@.tick(*input, dt as nat, first, second),
            final(self).wf(),
    {
        let first = random_piece_type();
        let second = random_piece_type();
        self.update_with(input, dt, first, second);
    }

    /// Starts a game with a first piece of kind `first` and a next piece of
    /// kind `second`.
    pub fn start_game_with(&mut self, first: TetrominoType, second: TetrominoType)
        requires
            first.is_standard(),
            second.is_standard(),
        ensures
            final(self)@ == old(self)@.start(first, second),
            final(self).wf(),
    {
        proof {
            old(self)@.lemma_start(first, second);
        }
        self.started = true;
        self.game_over = false;
        self.paused = false;
        self.lines_cleared = 0;
        self.score = 0;
        self.board = Board::new();
        self.hold_tetromino = None;
        self.hold_used = false;
        self.left_timer = 0;
        self.right_timer = 0;
        self.fall_timer = 0;
        self.line_clear_timer = 0;
        self.clearing_lines.clear();
        self.active_squares.clear();
        self.next_piece_id = 1;
        self.piece_statistics = PieceStatistics::new();
        self.tetromino = Some(Tetromino::new(first));
        self.piece_statistics.record(first);
        self.next_tetromino = Some(Tetromino::new(second));
        self.mus_mgr.play_song();
        assert(self@ =~~= old(self)@.start(first, second));
    }

    /// Starts a game. The first piece and the next piece are drawn.
    pub fn start_game(&mut self)
        ensures
            exists|first: TetrominoType, second: TetrominoType|
                first.is_standard() && second.is_standard() && final(self)@ == #[trigger] old(
                    self,
                )@.start(first, second),
            final(self).wf(),
    {
        let first = random_piece_type();
        let second = random_piece_type();
        self.start_game_with(first, second);
    }
}

} // verus!

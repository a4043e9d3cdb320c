//! The rules of a game, as functions from a state to the state that follows.
//!
//! A `GameView` is a game as the rules see it: plain mathematical values,
//! with counters that never overflow. Every operation of the game is one
//! function here. Where the game draws a piece at random, the function takes
//! the kind that was drawn as an argument.

use crate::board::{
    cell_blocked,
    collides,
    empty_grid,
    full_rows,
    grid_wf,
    in_grid,
    locked,
    rows_ascending,
    without_rows,
    Grid,
};
use crate::geometry::{rotate_cells, PieceView, TetrominoType, GRID_HEIGHT, SPAWN_X, SPAWN_Y};
use crate::input::Input;
use crate::music::MusicView;
use crate::settings::{fall_interval, Difficulty, GameMode};
use crate::squares::{
    advanced,
    at,
    detected,
    effects_fit,
    EffectView,
    GOLD_POINTS,
    SCAN_COLUMNS,
    SCAN_ROWS,
};
use crate::statistics::{counted, counts_have_room, counts_wf, no_pieces};
use crate::timing::{
    counted_down,
    run_on,
    HORIZONTAL_REPEAT_DELAY,
    INITIAL_HORIZONTAL_DELAY,
    LINE_CLEAR_DELAY,
};
use vstd::prelude::*;

verus! {

/// A game, as the rules see it.
#[verifier::ext_equal]
pub struct GameView {
    /// The locked blocks.
    pub board: Grid,
    /// The piece that falls, if there is one.
    pub tetromino: Option<PieceView>,
    /// The piece that comes next.
    pub next_tetromino: Option<PieceView>,
    /// The piece that was set aside.
    pub hold_tetromino: Option<PieceView>,
    /// True when a piece was set aside since the last piece entered.
    pub hold_used: bool,
    pub started: bool,
    pub paused: bool,
    pub game_over: bool,
    pub lines_cleared: nat,
    pub score: nat,
    /// Time until a piece that runs to the left takes its next step.
    pub left_timer: nat,
    /// Time until a piece that runs to the right takes its next step.
    pub right_timer: nat,
    /// Time since the piece last fell by a row.
    pub fall_timer: nat,
    /// Time until the full rows are taken out; zero when none wait.
    pub line_clear_timer: nat,
    /// The full rows that wait to be taken out.
    pub clearing_lines: Seq<usize>,
    /// The bonus squares that blink.
    pub active_squares: Seq<EffectView>,
    /// The number that the next locked piece gets.
    pub next_piece_id: nat,
    pub music: MusicView,
    /// How many pieces of each kind have entered the field.
    pub piece_statistics: Map<TetrominoType, nat>,
    pub player_name: Seq<char>,
    pub difficulty: Difficulty,
    pub game_mode: GameMode,
}

/// The piece that was set aside as it comes back: unturned, at the place
/// where pieces enter.
pub open spec fn brought_back(held: PieceView) -> PieceView {
    PieceView { cells: held.t_type.canonical_cells(), pos: (SPAWN_X as int, SPAWN_Y as int), ..held }
}

/// The piece after it fell as far as the board lets it.
pub open spec fn landing(g: Grid, p: PieceView) -> PieceView
    decreases
            GRID_HEIGHT - p.pos.1 - (if p.cells.len() > 0 {
                p.cells[0].1
            } else {
                0
            }),
{
    if p.cells.len() == 0 || collides(g, p.cells, (p.pos.0, p.pos.1 + 1)) {
        p
    } else {
        proof {
            assert(!cell_blocked(g, p.cells, (p.pos.0, p.pos.1 + 1), 0));
        }
        landing(g, p.shifted(0, 1))
    }
}

/// Every block of the grid carries a number below `bound`.
pub open spec fn ids_below(g: Grid, bound: nat) -> bool {
    forall|x: int, y: int|
        in_grid(x, y) ==> ((#[trigger] at(g, x, y)) matches Some(cell) ==> cell.id < bound)
}

/// No two effects of the list have the same top-left square.
pub open spec fn effects_distinct(effects: Seq<EffectView>) -> bool {
    forall|i: int, j: int|
        0 <= i < j < effects.len() ==> !((#[trigger] effects[i]).x == (#[trigger] effects[j]).x
            && effects[i].y == effects[j].y)
}

impl GameView {
    /// A game that has not started: an empty board, no pieces, all counters
    /// at their start, the player called "Player", normal difficulty, the
    /// classic mode.
    pub open spec fn initial() -> GameView {
        GameView {
            board: empty_grid(),
            tetromino: None,
            next_tetromino: None,
            hold_tetromino: None,
            hold_used: false,
            started: false,
            paused: false,
            game_over: false,
            lines_cleared: 0,
            score: 0,
            left_timer: 0,
            right_timer: 0,
            fall_timer: 0,
            line_clear_timer: 0,
            clearing_lines: Seq::empty(),
            active_squares: Seq::empty(),
            next_piece_id: 1,
            music: MusicView::initial(),
            piece_statistics: no_pieces(),
            player_name: "Player"@,
            difficulty: Difficulty::Normal,
            game_mode: GameMode::Classic,
        }
    }

    /// What holds of a game at every step, also in the middle of an
    /// operation.
    pub open spec fn inv(self) -> bool {
        &&& grid_wf(self.board)
        &&& (self.tetromino matches Some(p) ==> p.wf() && p.on_field())
        &&& (self.next_tetromino matches Some(p) ==> p.t_type.is_standard() && p == PieceView::fresh(
            p.t_type,
        ))
        &&& (self.hold_tetromino matches Some(p) ==> p.t_type.is_standard() && p.cells
            == p.t_type.canonical_cells())
        &&& effects_fit(self.active_squares)
        &&& effects_distinct(self.active_squares)
        &&& rows_ascending(self.clearing_lines)
        &&& (self.clearing_lines.len() == 0 <==> self.line_clear_timer == 0)
        &&& (self.started ==> self.next_tetromino.is_some())
        &&& (self.game_over ==> !self.started)
        &&& self.next_piece_id >= 1
        &&& ids_below(self.board, self.next_piece_id)
        &&& counts_wf(self.piece_statistics)
        &&& self.music.wf()
    }

    /// What holds of every game between two operations: `inv`, and while the
    /// game goes on a piece falls or full rows wait to be taken out.
    pub open spec fn wf(self) -> bool {
        &&& self.inv()
        &&& (self.started ==> self.tetromino.is_some() || self.line_clear_timer > 0)
    }

    /// True while pieces fall: the game has started, is not over, is not
    /// paused, and no full rows wait to be taken out.
    pub open spec fn in_play(self) -> bool {
        self.started && !self.game_over && !self.paused && self.line_clear_timer == 0
    }

    /// True when `p` has every cell on the field and on a free square.
    pub open spec fn can_place(self, p: PieceView) -> bool {
        !collides(self.board, p.cells, p.pos)
    }

    /// True when there is a falling piece and it can be where it is after a
    /// move by `(dx, dy)`.
    pub open spec fn can_shift(self, dx: int, dy: int) -> bool {
        self.tetromino matches Some(p) && self.can_place(p.shifted(dx, dy))
    }

    /// The falling piece moved by `(dx, dy)`, whatever is there.
    pub open spec fn shift(self, dx: int, dy: int) -> GameView {
        match self.tetromino {
            Some(p) => GameView { tetromino: Some(p.shifted(dx, dy)), ..self },
            None => self,
        }
    }

    /// The falling piece with other offsets, whatever is there.
    pub open spec fn with_shape(self, cells: Seq<(int, int)>) -> GameView {
        match self.tetromino {
            Some(p) => GameView { tetromino: Some(p.with_cells(cells)), ..self },
            None => self,
        }
    }

    /// The next piece enters the field. In a game that has not started
    /// nothing happens. Where the next piece cannot be at the place of
    /// entry, the game is over and no piece enters. Else it becomes the
    /// falling piece and is counted, a piece of kind `following` becomes the
    /// next piece, a piece may be set aside again, and the fall starts anew.
    pub open spec fn spawn(self, following: TetrominoType) -> GameView {
        if !self.started {
            self
        } else {
            match self.next_tetromino {
                Some(next) => if self.can_place(next) {
                    GameView {
                        tetromino: Some(next),
                        piece_statistics: counted(self.piece_statistics, next.t_type),
                        next_tetromino: Some(PieceView::fresh(following)),
                        hold_used: false,
                        fall_timer: 0,
                        ..self
                    }
                } else {
                    GameView { game_over: true, started: false, ..self }
                },
                None => self,
            }
        }
    }

    /// The board is scanned for bonus squares, and each one that has no
    /// effect yet starts to blink.
    pub open spec fn detect(self) -> GameView {
        GameView {
            active_squares: self.active_squares + detected(self.board, self.active_squares),
            ..self
        }
    }

    /// The falling piece is locked: its blocks go to the board under the next
    /// number, and no piece falls any more. Where that leaves full rows,
    /// they wait to be taken out and nothing else happens. Else the next
    /// piece enters and the board is scanned for bonus squares.
    pub open spec fn lock(self, following: TetrominoType) -> GameView {
        let placed = match self.tetromino {
            Some(p) => GameView {
                board: locked(self.board, p, self.next_piece_id as u32),
                next_piece_id: self.next_piece_id + 1,
                tetromino: None,
                ..self
            },
            None => self,
        };
        let rows = full_rows(placed.board);
        if rows.len() > 0 {
            GameView { clearing_lines: rows, line_clear_timer: LINE_CLEAR_DELAY as nat, ..placed }
        } else {
            placed.spawn(following).detect()
        }
    }

    /// The rows that wait are taken out and counted. Where the next piece
    /// cannot enter the board that is left, the game is over. Else the next
    /// piece enters and the board is scanned for bonus squares.
    pub open spec fn clear_lines(self, following: TetrominoType) -> GameView {
        let cleared = GameView {
            board: without_rows(self.board, self.clearing_lines),
            lines_cleared: self.lines_cleared + self.clearing_lines.len(),
            clearing_lines: Seq::empty(),
            line_clear_timer: 0,
            ..self
        };
        if cleared.next_tetromino matches Some(next) && !cleared.can_place(next) {
            GameView { game_over: true, started: false, ..cleared }
        } else {
            cleared.spawn(following).detect()
        }
    }

    /// Time passes on the bonus squares. Those that finish have their region
    /// converted and their points added to the score.
    pub open spec fn advance_effects(self, dt: nat) -> GameView {
        let outcome = advanced(self.board, self.active_squares, dt);
        GameView {
            board: outcome.grid,
            active_squares: outcome.effects,
            score: self.score + outcome.gained,
            ..self
        }
    }

    /// The player steers to the left. A press moves the piece by a column
    /// if it can, and the piece then waits before it starts to run. While
    /// the direction is held its timer counts down, and at zero the piece
    /// takes a step if it can and waits for the next. Without either the
    /// timer goes to zero.
    pub open spec fn steer_left(self, pressed: bool, held: bool, dt: nat) -> GameView {
        if pressed {
            if self.can_shift(-1, 0) {
                GameView { left_timer: INITIAL_HORIZONTAL_DELAY as nat, ..self.shift(-1, 0) }
            } else {
                self
            }
        } else if held {
            let left = counted_down(self.left_timer, dt);
            if left == 0 && self.can_shift(-1, 0) {
                GameView { left_timer: HORIZONTAL_REPEAT_DELAY as nat, ..self.shift(-1, 0) }
            } else {
                GameView { left_timer: left, ..self }
            }
        } else {
            GameView { left_timer: 0, ..self }
        }
    }

    /// The player steers to the right; as to the left, with a timer of its
    /// own.
    pub open spec fn steer_right(self, pressed: bool, held: bool, dt: nat) -> GameView {
        if pressed {
            if self.can_shift(1, 0) {
                GameView { right_timer: INITIAL_HORIZONTAL_DELAY as nat, ..self.shift(1, 0) }
            } else {
                self
            }
        } else if held {
            let left = counted_down(self.right_timer, dt);
            if left == 0 && self.can_shift(1, 0) {
                GameView { right_timer: HORIZONTAL_REPEAT_DELAY as nat, ..self.shift(1, 0) }
            } else {
                GameView { right_timer: left, ..self }
            }
        } else {
            GameView { right_timer: 0, ..self }
        }
    }

    /// The falling piece turns by a quarter if the turned piece can be where
    /// the piece is. Else nothing changes: no other place is tried.
    pub open spec fn turn(self, clockwise: bool) -> GameView {
        match self.tetromino {
            Some(p) => {
                let turned = p.with_cells(rotate_cells(p.cells, p.t_type, clockwise));
                if self.can_place(turned) {
                    GameView { tetromino: Some(turned), ..self }
                } else {
                    self
                }
            },
            None => self,
        }
    }

    /// The player drops softly: the fall starts anew and the piece moves
    /// down a row if it can.
    pub open spec fn soft_drop(self) -> GameView {
        let held = GameView { fall_timer: 0, ..self };
        if held.can_shift(0, 1) {
            held.shift(0, 1)
        } else {
            held
        }
    }

    /// The player asks to set the falling piece aside. Nothing happens when
    /// a piece was set aside since the last piece entered, or when no piece
    /// falls. Else the wish is noted. With no piece set aside yet, the
    /// falling piece is set aside, unturned, and the next piece enters. With
    /// one set aside, that piece comes back, unturned, to the place of
    /// entry: where it can be there, the two change places; where it cannot,
    /// both stay.
    pub open spec fn hold(self, following: TetrominoType) -> GameView {
        match self.tetromino {
            Some(p) => if self.hold_used {
                self
            } else {
                match self.hold_tetromino {
                    Some(held) => if self.can_place(brought_back(held)) {
                        GameView {
                            hold_used: true,
                            hold_tetromino: Some(p.unturned()),
                            tetromino: Some(brought_back(held)),
                            ..self
                        }
                    } else {
                        GameView { hold_used: true, hold_tetromino: Some(brought_back(held)), ..self }
                    },
                    None => (GameView {
                        hold_used: true,
                        hold_tetromino: Some(p.unturned()),
                        tetromino: None,
                        ..self
                    }).spawn(following),
                }
            },
            None => self,
        }
    }

    /// The falling piece drops as far as it goes and is locked there.
    pub open spec fn hard_drop(self, following: TetrominoType) -> GameView {
        match self.tetromino {
            Some(p) => (GameView { tetromino: Some(landing(self.board, p)), ..self }).lock(following),
            None => self.lock(following),
        }
    }

    /// The music follows the player's wishes: first to silence it or give it
    /// its voice back, then to play the next track.
    pub open spec fn steer_music(self, input: Input) -> GameView {
        let muted = if input.mute {
            self.music.mute()
        } else {
            self.music
        };
        let played = if input.next_song {
            muted.play_song()
        } else {
            muted
        };
        GameView { music: played, ..self }
    }

    /// The turns that the player wishes: first counter-clockwise, then
    /// clockwise.
    pub open spec fn turns(self, input: Input) -> GameView {
        let turned_ccw = if input.rotate_ccw {
            self.turn(false)
        } else {
            self
        };
        if input.rotate_cw {
            turned_ccw.turn(true)
        } else {
            turned_ccw
        }
    }

    /// The moves of one frame that need no new piece, in this order: steer
    /// to the left, steer to the right, turn counter-clockwise, turn
    /// clockwise, drop softly. Each move is tried against the board and the
    /// piece as the moves before it have left them.
    pub open spec fn moves(self, input: Input, dt: nat) -> GameView {
        let steered = self.steer_left(input.left_pressed, input.left_held, dt).steer_right(
            input.right_pressed,
            input.right_held,
            dt,
        );
        let turned = steered.turns(input);
        if input.soft_drop {
            turned.soft_drop()
        } else {
            turned
        }
    }

    /// The wishes of one frame are carried out. A hard drop is carried out
    /// alone. Else the moves come first, then the music, and last the wish
    /// to set the piece aside.
    pub open spec fn process_input(self, input: Input, dt: nat, following: TetrominoType) -> GameView {
        if input.hard_drop {
            self.hard_drop(following)
        } else {
            let tuned = self.moves(input, dt).steer_music(input);
            if input.hold {
                tuned.hold(following)
            } else {
                tuned
            }
        }
    }

    /// The piece falls by itself. The time since the last fall grows by
    /// `dt`; once it reaches the time for a row, that time is taken off and
    /// the piece moves down a row, or is locked where it cannot.
    pub open spec fn fall(self, soft_drop: bool, dt: nat, following: TetrominoType) -> GameView {
        match self.tetromino {
            Some(p) => {
                let interval = fall_interval(self.difficulty, soft_drop);
                let waited = run_on(self.fall_timer, dt);
                if waited >= interval {
                    let due = GameView { fall_timer: (waited - interval) as nat, ..self };
                    if due.can_shift(0, 1) {
                        due.shift(0, 1)
                    } else {
                        due.lock(following)
                    }
                } else {
                    GameView { fall_timer: waited, ..self }
                }
            },
            None => self,
        }
    }

    /// The wish to pause is carried out, unless the game is over: the game
    /// and the music are paused, or go on when they were paused.
    pub open spec fn toggle_pause(self, wished: bool) -> GameView {
        if wished && !self.game_over {
            GameView { paused: !self.paused, music: self.music.pause(), ..self }
        } else {
            self
        }
    }

    /// One frame. First the wish to pause is carried out. A game that is
    /// paused, has not started or is over then stays as it is. While full
    /// rows wait, only their timer runs, and at zero they are taken out;
    /// `first` is the kind of the piece that may be drawn then. Else the
    /// wishes of the frame are carried out, the piece falls, and time passes
    /// on the bonus squares; `first` is the kind drawn by the wishes,
    /// `second` the kind drawn by the fall.
    pub open spec fn tick(self, input: Input, dt: nat, first: TetrominoType, second: TetrominoType) -> GameView {
        let now = self.toggle_pause(input.pause_toggle);
        if now.paused || !now.started || now.game_over {
            now
        } else if now.line_clear_timer > 0 {
            let left = counted_down(now.line_clear_timer, dt);
            if left == 0 {
                now.clear_lines(first)
            } else {
                GameView { line_clear_timer: left, ..now }
            }
        } else {
            now.process_input(input, dt, first).fall(input.soft_drop, dt, second).advance_effects(dt)
        }
    }

    /// A game starts: an empty board, all counters at their start, a first
    /// piece that falls and is counted, a next piece, and the music. The
    /// player's name, the difficulty and the mode stay.
    pub open spec fn start(self, first: TetrominoType, second: TetrominoType) -> GameView {
        GameView {
            board: empty_grid(),
            tetromino: Some(PieceView::fresh(first)),
            next_tetromino: Some(PieceView::fresh(second)),
            hold_tetromino: None,
            hold_used: false,
            started: true,
            paused: false,
            game_over: false,
            lines_cleared: 0,
            score: 0,
            left_timer: 0,
            right_timer: 0,
            fall_timer: 0,
            line_clear_timer: 0,
            clearing_lines: Seq::empty(),
            active_squares: Seq::empty(),
            next_piece_id: 1,
            music: self.music.play_song(),
            piece_statistics: counted(no_pieces(), first),
            ..self
        }
    }

    /// The counters of the game can be stored: the number of the next piece,
    /// the lines, the score and the count of each kind of piece are none
    /// above the largest value of their fields.
    pub open spec fn fits(self) -> bool {
        &&& self.next_piece_id <= u32::MAX
        &&& self.lines_cleared <= u32::MAX
        &&& self.score <= u32::MAX
        &&& counts_have_room(self.piece_statistics, 0)
    }

    /// Room enough for whatever a frame brings: two pieces can be numbered
    /// and counted, the rows of a whole board can be counted as lines, and
    /// every bonus square that blinks or starts to blink can score. This is
    /// more than any one frame needs; it is what can be tested before the
    /// frame is known.
    pub open spec fn has_headroom(self) -> bool {
        &&& self.next_piece_id + 2 <= u32::MAX
        &&& counts_have_room(self.piece_statistics, 2)
        &&& self.lines_cleared + GRID_HEIGHT <= u32::MAX
        &&& self.score + GOLD_POINTS * (self.active_squares.len() + 2 * SCAN_COLUMNS * SCAN_ROWS)
            <= u32::MAX
    }
}

} // verus!

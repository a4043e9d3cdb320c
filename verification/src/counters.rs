//! No counter of a game ever goes down, and none grows by more in a frame
//! than a game with headroom has room for.

use crate::board::{lemma_ascending_rows_are_few, locked, without_rows, Grid};
use crate::geometry::{TetrominoType, GRID_HEIGHT};
use crate::input::Input;
use crate::rules::{landing, GameView};
use crate::settings::fall_interval;
use crate::squares::{
    advanced_upto,
    lemma_detected_positions,
    EffectView,
    GOLD_POINTS,
    SCAN_COLUMNS,
    SCAN_ROWS,
};
use crate::timing::{counted_down, run_on};
use vstd::prelude::*;

verus! {

/// The score of the finished effects among the first `n` is no more than the
/// points of a gold square for each.
pub proof fn lemma_gained_bound(g: Grid, effects: Seq<EffectView>, dt: nat, n: nat)
    ensures
        advanced_upto(g, effects, dt, n).gained <= GOLD_POINTS * n,
    decreases n,
{
    if n > 0 {
        lemma_gained_bound(g, effects, dt, (n - 1) as nat);
    }
}

/// No counter of `later` is below that of `earlier`.
pub open spec fn counted_on(earlier: GameView, later: GameView) -> bool {
    &&& earlier.next_piece_id <= later.next_piece_id
    &&& earlier.lines_cleared <= later.lines_cleared
    &&& earlier.score <= later.score
    &&& forall|t: TetrominoType|
        t.is_standard() ==> earlier.piece_statistics[t] <= #[trigger] later.piece_statistics[t]
}

/// The counters of `later` are above those of `earlier` by no more than
/// `pieces` pieces numbered, `pieces` pieces counted of each kind, `lines`
/// lines, and the points of `squares` gold squares.
pub open spec fn grown_within(earlier: GameView, later: GameView, pieces: nat, lines: nat, squares: nat) -> bool {
    &&& later.next_piece_id <= earlier.next_piece_id + pieces
    &&& later.lines_cleared <= earlier.lines_cleared + lines
    &&& later.score <= earlier.score + GOLD_POINTS * squares
    &&& forall|t: TetrominoType|
        t.is_standard() ==> #[trigger] later.piece_statistics[t] <= earlier.piece_statistics[t] + pieces
}

/// What can be stored after counting on could be stored before.
pub proof fn lemma_counted_on_fits(earlier: GameView, later: GameView)
    requires
        counted_on(earlier, later),
        later.fits(),
    ensures
        earlier.fits(),
{
    assert forall|t: TetrominoType| t.is_standard() implies #[trigger] earlier.piece_statistics[t] + 0
        <= u32::MAX by {
        assert(later.piece_statistics[t] + 0 <= u32::MAX);
    }
}

/// Counting on from a game with the same counters is counting on from the
/// game itself.
pub proof fn lemma_counted_on_from(start: GameView, same: GameView, later: GameView)
    requires
        same.next_piece_id == start.next_piece_id,
        same.lines_cleared == start.lines_cleared,
        same.score == start.score,
        same.piece_statistics == start.piece_statistics,
        same.active_squares == start.active_squares,
    ensures
        counted_on(same, later) ==> counted_on(start, later),
        forall|pieces: nat, lines: nat, squares: nat| #[trigger]
            grown_within(same, later, pieces, lines, squares) ==> grown_within(
                start,
                later,
                pieces,
                lines,
                squares,
            ),
{
}

/// Growth after growth is growth by the sum.
pub proof fn lemma_grown_further(
    start: GameView,
    middle: GameView,
    end: GameView,
    pieces: nat,
    lines: nat,
    squares: nat,
    more_pieces: nat,
    more_lines: nat,
    more_squares: nat,
)
    requires
        grown_within(start, middle, pieces, lines, squares),
        grown_within(middle, end, more_pieces, more_lines, more_squares),
    ensures
        grown_within(start, end, pieces + more_pieces, lines + more_lines, squares + more_squares),
{
    assert(GOLD_POINTS * (squares + more_squares) == GOLD_POINTS * squares + GOLD_POINTS * more_squares)
        by (nonlinear_arith);
    assert forall|t: TetrominoType| t.is_standard() implies #[trigger] end.piece_statistics[t]
        <= start.piece_statistics[t] + (pieces + more_pieces) by {
        assert(middle.piece_statistics[t] <= start.piece_statistics[t] + pieces);
    }
}

/// A game with headroom can be stored after it has grown by what a frame
/// can bring.
pub proof fn lemma_grown_fits(start: GameView, end: GameView, pieces: nat, lines: nat, squares: nat)
    requires
        start.has_headroom(),
        grown_within(start, end, pieces, lines, squares),
        pieces <= 2,
        lines <= GRID_HEIGHT,
        squares <= start.active_squares.len() + 2 * SCAN_COLUMNS * SCAN_ROWS,
    ensures
        end.fits(),
{
    assert(GOLD_POINTS * squares <= GOLD_POINTS * (start.active_squares.len() + 2 * SCAN_COLUMNS
        * SCAN_ROWS)) by (nonlinear_arith)
        requires
            squares <= start.active_squares.len() + 2 * SCAN_COLUMNS * SCAN_ROWS,
    ;
    assert forall|t: TetrominoType| t.is_standard() implies #[trigger] end.piece_statistics[t] + 0
        <= u32::MAX by {
        assert(start.piece_statistics[t] + 2 <= u32::MAX);
    }
}

impl GameView {
    /// The next piece that enters is counted once, and nothing else is
    /// counted.
    pub proof fn lemma_spawn_counts(self, following: TetrominoType)
        ensures
            counted_on(self, self.spawn(following)),
            grown_within(self, self.spawn(following), 1, 0, 0),
            self.spawn(following).active_squares == self.active_squares,
            self.spawn(following).next_piece_id == self.next_piece_id,
    {
    }

    /// Locking numbers the piece that is locked, counts one piece at most,
    /// leaves the score and the lines as they are, and starts no more bonus
    /// squares than one scan can find.
    pub proof fn lemma_lock_counts(self, following: TetrominoType)
        ensures
            counted_on(self, self.lock(following)),
            grown_within(self, self.lock(following), 1, 0, 0),
            self.lock(following).next_piece_id == self.next_piece_id + (if self.tetromino.is_some() {
                1nat
            } else {
                0nat
            }),
            self.active_squares.len() <= self.lock(following).active_squares.len()
                <= self.active_squares.len() + SCAN_COLUMNS * SCAN_ROWS,
    {
        let placed = match self.tetromino {
            Some(p) => GameView {
                board: locked(self.board, p, self.next_piece_id as u32),
                next_piece_id: self.next_piece_id + 1,
                tetromino: None,
                ..self
            },
            None => self,
        };
        placed.lemma_spawn_counts(following);
        lemma_detected_positions(
            placed.spawn(following).board,
            placed.spawn(following).active_squares,
            (SCAN_COLUMNS * SCAN_ROWS) as nat,
        );
    }

    /// Taking out the rows that wait counts them as lines and counts one
    /// piece at most.
    pub proof fn lemma_clear_lines_counts(self, following: TetrominoType)
        ensures
            counted_on(self, self.clear_lines(following)),
            grown_within(self, self.clear_lines(following), 1, self.clearing_lines.len(), 0),
            self.clear_lines(following).lines_cleared == self.lines_cleared + self.clearing_lines.len(),
    {
        let cleared = GameView {
            board: without_rows(self.board, self.clearing_lines),
            lines_cleared: self.lines_cleared + self.clearing_lines.len(),
            clearing_lines: Seq::empty(),
            line_clear_timer: 0,
            ..self
        };
        cleared.lemma_spawn_counts(following);
    }

    /// Setting a piece aside counts one piece at most and leaves the other
    /// counters as they are.
    pub proof fn lemma_hold_counts(self, following: TetrominoType)
        ensures
            counted_on(self, self.hold(following)),
            grown_within(self, self.hold(following), 1, 0, 0),
            self.hold(following).next_piece_id == self.next_piece_id,
            self.hold(following).active_squares == self.active_squares,
    {
        match self.tetromino {
            Some(p) => {
                let aside = GameView {
                    hold_used: true,
                    hold_tetromino: Some(p.unturned()),
                    tetromino: None,
                    ..self
                };
                aside.lemma_spawn_counts(following);
            },
            None => {},
        }
    }

    /// The moves of a frame and the music change no counter.
    pub proof fn lemma_moves_count_nothing(self, input: Input, dt: nat)
        ensures
            self.moves(input, dt).steer_music(input).piece_statistics == self.piece_statistics,
            self.moves(input, dt).steer_music(input).score == self.score,
            self.moves(input, dt).steer_music(input).lines_cleared == self.lines_cleared,
            self.moves(input, dt).steer_music(input).next_piece_id == self.next_piece_id,
            self.moves(input, dt).steer_music(input).active_squares == self.active_squares,
    {
    }

    /// A hard drop counts as the lock that ends it.
    pub proof fn lemma_hard_drop_counts(self, following: TetrominoType)
        ensures
            counted_on(self, self.hard_drop(following)),
            grown_within(self, self.hard_drop(following), 1, 0, 0),
            self.hard_drop(following).next_piece_id == self.next_piece_id + (
            if self.tetromino.is_some() {
                1nat
            } else {
                0nat
            }),
            self.active_squares.len() <= self.hard_drop(following).active_squares.len()
                <= self.active_squares.len() + SCAN_COLUMNS * SCAN_ROWS,
    {
        let dropped = match self.tetromino {
            Some(p) => GameView { tetromino: Some(landing(self.board, p)), ..self },
            None => self,
        };
        dropped.lemma_lock_counts(following);
    }

    /// The wishes of a frame number a piece exactly if a piece is dropped
    /// hard, count one piece at most, leave the score and the lines as they
    /// are, and start no more bonus squares than one scan can find.
    pub proof fn lemma_process_input_counts(self, input: Input, dt: nat, following: TetrominoType)
        ensures
            counted_on(self, self.process_input(input, dt, following)),
            grown_within(self, self.process_input(input, dt, following), 1, 0, 0),
            self.process_input(input, dt, following).next_piece_id == self.next_piece_id + (
            if input.hard_drop && self.tetromino.is_some() {
                1nat
            } else {
                0nat
            }),
            self.active_squares.len() <= self.process_input(input, dt, following).active_squares.len()
                <= self.active_squares.len() + SCAN_COLUMNS * SCAN_ROWS,
    {
        if input.hard_drop {
            self.lemma_hard_drop_counts(following);
        } else {
            self.lemma_moves_count_nothing(input, dt);
            let tuned = self.moves(input, dt).steer_music(input);
            tuned.lemma_hold_counts(following);
            if input.hold {
                lemma_counted_on_from(self, tuned, tuned.hold(following));
            }
        }
    }

    /// The fall numbers one piece at most, counts one piece at most, leaves
    /// the score and the lines as they are, and starts no more bonus squares
    /// than one scan can find.
    pub proof fn lemma_fall_counts(self, soft_drop: bool, dt: nat, following: TetrominoType)
        ensures
            counted_on(self, self.fall(soft_drop, dt, following)),
            grown_within(self, self.fall(soft_drop, dt, following), 1, 0, 0),
            self.active_squares.len() <= self.fall(soft_drop, dt, following).active_squares.len()
                <= self.active_squares.len() + SCAN_COLUMNS * SCAN_ROWS,
    {
        match self.tetromino {
            Some(p) => {
                let interval = fall_interval(self.difficulty, soft_drop);
                let waited = run_on(self.fall_timer, dt);
                if waited >= interval {
                    let due = GameView { fall_timer: (waited - interval) as nat, ..self };
                    if !due.can_shift(0, 1) {
                        due.lemma_lock_counts(following);
                        lemma_counted_on_from(self, due, due.lock(following));
                    }
                }
            },
            None => {},
        }
    }

    /// Time on the bonus squares changes no counter but the score, which
    /// grows by the points of a gold square for each square at most.
    pub proof fn lemma_advance_effects_counts(self, dt: nat)
        ensures
            counted_on(self, self.advance_effects(dt)),
            grown_within(self, self.advance_effects(dt), 0, 0, self.active_squares.len()),
            self.advance_effects(dt).next_piece_id == self.next_piece_id,
    {
        lemma_gained_bound(self.board, self.active_squares, dt, self.active_squares.len());
    }

    /// A game whose frame can be stored can be stored after each step of the
    /// frame, because no counter ever goes down.
    pub proof fn lemma_steps_of_tick_fit(
        self,
        input: Input,
        dt: nat,
        first: TetrominoType,
        second: TetrominoType,
    )
        requires
            self.tick(input, dt, first, second).fits(),
            self.toggle_pause(input.pause_toggle).in_play(),
        ensures
            ({
                let now = self.toggle_pause(input.pause_toggle);
                let played = now.process_input(input, dt, first);
                let fallen = played.fall(input.soft_drop, dt, second);
                &&& played.fits()
                &&& fallen.fits()
                &&& fallen.advance_effects(dt) == self.tick(input, dt, first, second)
            }),
    {
        let now = self.toggle_pause(input.pause_toggle);
        let played = now.process_input(input, dt, first);
        let fallen = played.fall(input.soft_drop, dt, second);
        played.lemma_fall_counts(input.soft_drop, dt, second);
        fallen.lemma_advance_effects_counts(dt);
        lemma_counted_on_fits(fallen, fallen.advance_effects(dt));
        lemma_counted_on_fits(played, fallen);
    }

    /// A game with headroom can be stored after a frame.
    pub proof fn lemma_headroom_for_tick(
        self,
        input: Input,
        dt: nat,
        first: TetrominoType,
        second: TetrominoType,
    )
        requires
            self.wf(),
            self.has_headroom(),
        ensures
            self.tick(input, dt, first, second).fits(),
    {
        let now = self.toggle_pause(input.pause_toggle);
        let out = self.tick(input, dt, first, second);
        lemma_counted_on_from(self, now, out);
        if now.paused || !now.started || now.game_over {
            lemma_grown_fits(self, out, 0, 0, 0);
        } else if now.line_clear_timer > 0 {
            if counted_down(now.line_clear_timer, dt) == 0 {
                lemma_ascending_rows_are_few(self.clearing_lines);
                now.lemma_clear_lines_counts(first);
                lemma_grown_fits(self, out, 1, self.clearing_lines.len(), 0);
            } else {
                lemma_grown_fits(self, out, 0, 0, 0);
            }
        } else {
            let played = now.process_input(input, dt, first);
            let fallen = played.fall(input.soft_drop, dt, second);
            let scan = (SCAN_COLUMNS * SCAN_ROWS) as nat;
            assert(grown_within(self, played, 1, 0, 0) && played.active_squares.len()
                <= self.active_squares.len() + scan) by {
                now.lemma_process_input_counts(input, dt, first);
                lemma_counted_on_from(self, now, played);
            }
            assert(grown_within(played, fallen, 1, 0, 0) && fallen.active_squares.len()
                <= played.active_squares.len() + scan) by {
                played.lemma_fall_counts(input.soft_drop, dt, second);
            }
            assert(grown_within(fallen, out, 0, 0, fallen.active_squares.len())) by {
                fallen.lemma_advance_effects_counts(dt);
            }
            lemma_grown_further(self, played, fallen, 1, 0, 0, 1, 0, 0);
            lemma_grown_further(self, fallen, out, 2, 0, 0, 0, 0, fallen.active_squares.len());
            lemma_grown_fits(self, out, 2, 0, fallen.active_squares.len());
        }
    }

    /// A game with headroom can be stored after any single operation.
    pub proof fn lemma_headroom_suffices(self, input: Input, dt: nat, following: TetrominoType)
        requires
            self.wf(),
            self.has_headroom(),
        ensures
            self.spawn(following).fits(),
            self.lock(following).fits(),
            self.clear_lines(following).fits(),
            self.hold(following).fits(),
            self.hard_drop(following).fits(),
            self.process_input(input, dt, following).fits(),
            self.fall(input.soft_drop, dt, following).fits(),
            self.advance_effects(dt).fits(),
    {
        lemma_ascending_rows_are_few(self.clearing_lines);
        assert(self.spawn(following).fits()) by {
            self.lemma_spawn_counts(following);
            lemma_grown_fits(self, self.spawn(following), 1, 0, 0);
        }
        assert(self.lock(following).fits()) by {
            self.lemma_lock_counts(following);
            lemma_grown_fits(self, self.lock(following), 1, 0, 0);
        }
        assert(self.clear_lines(following).fits()) by {
            self.lemma_clear_lines_counts(following);
            lemma_grown_fits(self, self.clear_lines(following), 1, self.clearing_lines.len(), 0);
        }
        assert(self.hold(following).fits()) by {
            self.lemma_hold_counts(following);
            lemma_grown_fits(self, self.hold(following), 1, 0, 0);
        }
        assert(self.hard_drop(following).fits()) by {
            self.lemma_hard_drop_counts(following);
            lemma_grown_fits(self, self.hard_drop(following), 1, 0, 0);
        }
        assert(self.process_input(input, dt, following).fits()) by {
            self.lemma_process_input_counts(input, dt, following);
            lemma_grown_fits(self, self.process_input(input, dt, following), 1, 0, 0);
        }
        assert(self.fall(input.soft_drop, dt, following).fits()) by {
            self.lemma_fall_counts(input.soft_drop, dt, following);
            lemma_grown_fits(self, self.fall(input.soft_drop, dt, following), 1, 0, 0);
        }
        assert(self.advance_effects(dt).fits()) by {
            self.lemma_advance_effects_counts(dt);
            lemma_grown_fits(self, self.advance_effects(dt), 0, 0, self.active_squares.len());
        }
    }
}

} // verus!

//! What follows from the rules: laws of the game, each proved from the
//! functions of `GameView` and of the board.

use crate::board::{
    cell_blocked,
    collides,
    empty_row,
    full_rows,
    grid_wf,
    in_grid,
    lemma_ascending_rows_are_counted,
    lemma_remove_rows_keeps_order,
    locked,
    piece_cell,
    row_after_removal,
    without_rows,
    Cell,
    Grid,
};
use crate::geometry::{rotate_cells, PieceView, TetrominoType, GRID_HEIGHT};
use crate::input::Input;
use crate::invariants::lemma_anchor_near_field;
use crate::rules::{landing, GameView};
use crate::squares::{
    advanced,
    advanced_upto,
    at,
    bonus_cell,
    bonus_points,
    converted,
    detected,
    detected_upto,
    effect_at,
    first_of_piece,
    has_id,
    in_region,
    lemma_detected_positions,
    qualifies,
    region_cell,
    region_fits,
    region_has_id,
    scan_position,
    shares_piece,
    snapshot_cell,
    snapshot_gold,
    EffectView,
    Outcome,
    BLINK_COUNT,
    SCAN_COLUMNS,
    SCAN_ROWS,
};
use crate::timing::{BLINK_PERIOD, LINE_CLEAR_DELAY};
use vstd::prelude::*;

verus! {

/// A piece that is locked gets a number above every number on the board,
/// and the piece after it gets the number after that: the blocks of the
/// locked piece are on the board under the number that was next, and the
/// number that is next has grown by one.
pub proof fn lemma_lock_numbers_rise(s: GameView, following: TetrominoType)
    requires
        s.inv(),
        s.tetromino.is_some(),
        s.next_piece_id < u32::MAX,
    ensures
        s.lock(following).next_piece_id == s.next_piece_id + 1,
        s.lock(following).board == locked(s.board, s.tetromino->0, s.next_piece_id as u32),
        forall|x: int, y: int|
            in_grid(x, y) ==> ((#[trigger] at(s.board, x, y)) matches Some(cell) ==> cell.id
                < s.next_piece_id),
        forall|i: int|
            0 <= i < 4 ==> (#[trigger] at(
                s.lock(following).board,
                (s.tetromino->0).cell(i).0,
                (s.tetromino->0).cell(i).1,
            )) == Some(
                Cell {
                    color: (s.tetromino->0).color,
                    t_type: (s.tetromino->0).t_type,
                    id: s.next_piece_id as u32,
                },
            ),
{
    let p = s.tetromino->0;
    lemma_anchor_near_field(p);
    assert forall|i: int| 0 <= i < 4 implies (#[trigger] at(
        s.lock(following).board,
        p.cell(i).0,
        p.cell(i).1,
    )) == Some(Cell { color: p.color, t_type: p.t_type, id: s.next_piece_id as u32 }) by {
        assert(in_grid(p.cell(i).0, p.cell(i).1));
        assert(piece_cell(p.cells, p.pos, i) == p.cell(i));
    }
}

/// When the rows that wait are taken out, each of them is counted as a line,
/// as many empty rows stand at the top as rows were taken out, and every
/// other row is found, as it was, further down by the number of rows that
/// were taken out below it.
pub proof fn lemma_cleared_rows_are_counted(s: GameView, following: TetrominoType)
    requires
        s.inv(),
    ensures
        s.clear_lines(following).lines_cleared == s.lines_cleared + s.clearing_lines.len(),
        s.clear_lines(following).clearing_lines.len() == 0,
        s.clear_lines(following).line_clear_timer == 0,
        forall|y: int|
            0 <= y < s.clearing_lines.len() ==> (#[trigger] s.clear_lines(following).board[y])
                == empty_row(),
        forall|y: int|
            0 <= y < GRID_HEIGHT && !s.clearing_lines.contains(y as usize) ==> s.clear_lines(
                following,
            ).board[#[trigger] row_after_removal(s.clearing_lines, y)] == s.board[y],
{
    lemma_ascending_rows_are_counted(s.clearing_lines);
    lemma_remove_rows_keeps_order(s.board, s.clearing_lines);
    assert(s.clear_lines(following).board == without_rows(s.board, s.clearing_lines));
}

/// A snapshot whose sixteen cells are all of one kind is gold.
pub proof fn lemma_one_kind_is_gold(snap: Seq<Seq<Cell>>)
    requires
        forall|k: int| 0 <= k < 16 ==> (#[trigger] snapshot_cell(snap, k)).t_type == snapshot_cell(snap, 0).t_type,
    ensures
        snapshot_gold(snap),
{
}

/// Where blocks of one placement always are of one kind, a snapshot is gold
/// exactly if its sixteen cells are all of one kind.
pub proof fn lemma_gold_means_one_kind(snap: Seq<Seq<Cell>>)
    requires
        forall|j: int, k: int|
            0 <= j < 16 && 0 <= k < 16 && (#[trigger] snapshot_cell(snap, j)).id == (
            #[trigger] snapshot_cell(snap, k)).id ==> snapshot_cell(snap, j).t_type == snapshot_cell(
                snap,
                k,
            ).t_type,
    ensures
        snapshot_gold(snap) <==> forall|k: int|
            0 <= k < 16 ==> (#[trigger] snapshot_cell(snap, k)).t_type == snapshot_cell(snap, 0).t_type,
{
    if snapshot_gold(snap) {
        assert forall|k: int| 0 <= k < 16 implies (#[trigger] snapshot_cell(snap, k)).t_type
            == snapshot_cell(snap, 0).t_type by {
            let j = lemma_first_of_piece_exists(snap, k);
            assert(first_of_piece(snap, j));
        }
    }
}

/// Every cell of a snapshot has a first cell of its placement.
proof fn lemma_first_of_piece_exists(snap: Seq<Seq<Cell>>, k: int) -> (j: int)
    requires
        0 <= k < 16,
    ensures
        0 <= j <= k,
        snapshot_cell(snap, j).id == snapshot_cell(snap, k).id,
        first_of_piece(snap, j),
    decreases k,
{
    if first_of_piece(snap, k) {
        k
    } else {
        let i = choose|i: int| 0 <= i < k && (#[trigger] snapshot_cell(snap, i)).id == snapshot_cell(snap, k).id;
        lemma_first_of_piece_exists(snap, i)
    }
}

/// A region with a piece that has a block outside the region is no bonus
/// square, however full it is, and a scan starts no effect for it.
pub proof fn lemma_straddling_piece_bars_square(
    g: Grid,
    active: Seq<EffectView>,
    x: int,
    y: int,
    k: int,
    cx: int,
    cy: int,
)
    requires
        0 <= k < 16,
        in_grid(cx, cy),
        !in_region(x, y, cx, cy),
        region_cell(g, x, y, k) matches Some(inside) && has_id(at(g, cx, cy), inside.id),
    ensures
        !qualifies(g, x, y),
        forall|i: int|
            0 <= i < detected(g, active).len() ==> !((#[trigger] detected(g, active)[i]).x == x && detected(
                g,
                active,
            )[i].y == y),
{
    let inside = region_cell(g, x, y, k)->0;
    assert(has_id(region_cell(g, x, y, k), inside.id));
    assert(region_has_id(g, x, y, inside.id));
    assert(shares_piece(g, x, y, at(g, cx, cy)));
    lemma_detected_positions(g, active, (SCAN_COLUMNS * SCAN_ROWS) as nat);
}

/// A region that is a bonus square and has no effect yet gets one from a
/// scan, and a scan starts effects for such regions only.
pub proof fn lemma_scan_finds_squares(g: Grid, active: Seq<EffectView>, x: int, y: int)
    requires
        region_fits(x, y),
    ensures
        (qualifies(g, x, y) && !effect_at(active, x, y)) <==> effect_at(
            detected(g, active),
            x,
            y,
        ),
        effect_at(detected(g, active), x, y) ==> detected(g, active).contains(
            EffectView::fresh(g, x, y),
        ),
{
    let n = (SCAN_COLUMNS * SCAN_ROWS) as nat;
    let k = y * SCAN_COLUMNS + x;
    lemma_detected_positions(g, active, n);
    lemma_scan_reaches(g, active, n, k);
    let found = detected(g, active);
    if effect_at(found, x, y) {
        let i = choose|i: int| 0 <= i < found.len() && (#[trigger] found[i]).x == x && found[i].y == y;
        assert(found[i] == EffectView::fresh(g, x, y));
    }
}

/// Among the first `n` regions of a scan, the `k`-th gets an effect if it is
/// a bonus square and has none yet.
proof fn lemma_scan_reaches(g: Grid, active: Seq<EffectView>, n: nat, k: int)
    requires
        0 <= k < n,
    ensures
        ({
            let (x, y) = scan_position(k);
            qualifies(g, x, y) && !effect_at(active, x, y) ==> effect_at(
                detected_upto(g, active, n),
                x,
                y,
            )
        }),
    decreases n,
{
    let (x, y) = scan_position(k);
    let now = detected_upto(g, active, n);
    let earlier = detected_upto(g, active, (n - 1) as nat);
    if qualifies(g, x, y) && !effect_at(active, x, y) {
        if k == n - 1 {
            assert(now == earlier.push(EffectView::fresh(g, x, y)));
            assert(now[now.len() - 1].x == x && now[now.len() - 1].y == y);
        } else {
            lemma_scan_reaches(g, active, (n - 1) as nat, k);
            let i = choose|i: int| 0 <= i < earlier.len() && (#[trigger] earlier[i]).x == x && earlier[i].y == y;
            assert(now[i] == earlier[i]);
        }
    }
}

/// The effect after each of the times of `dts` has passed, one after the
/// other.
pub open spec fn ran(e: EffectView, dts: Seq<nat>) -> EffectView
    decreases dts.len(),
{
    if dts.len() == 0 {
        e
    } else {
        ran(e, dts.drop_last()).stepped(dts.last())
    }
}

/// How often the square goes from lit to dark while the times of `dts`
/// pass.
pub open spec fn darkenings(e: EffectView, dts: Seq<nat>) -> nat
    decreases dts.len(),
{
    if dts.len() == 0 {
        0
    } else if ran(e, dts.drop_last()).goes_dark(dts.last()) {
        darkenings(e, dts.drop_last()) + 1
    } else {
        darkenings(e, dts.drop_last())
    }
}

/// Each time a square goes dark one blink is used up, and nothing else
/// uses one up.
pub proof fn lemma_blinks_count_darkenings(e: EffectView, dts: Seq<nat>)
    ensures
        ran(e, dts).blinks_remaining == (if darkenings(e, dts) >= e.blinks_remaining {
            0
        } else {
            e.blinks_remaining - darkenings(e, dts)
        }),
        ran(e, dts).x == e.x,
        ran(e, dts).y == e.y,
        ran(e, dts).is_gold == e.is_gold,
    decreases dts.len(),
{
    if dts.len() > 0 {
        lemma_blinks_count_darkenings(e, dts.drop_last());
    }
}

/// A bonus square is finished exactly when it has gone dark `BLINK_COUNT`
/// times since it was found.
pub proof fn lemma_square_finishes_with_last_blink(g: Grid, x: int, y: int, dts: Seq<nat>)
    ensures
        ran(EffectView::fresh(g, x, y), dts).finished() <==> darkenings(EffectView::fresh(g, x, y), dts)
            >= BLINK_COUNT,
{
    lemma_blinks_count_darkenings(EffectView::fresh(g, x, y), dts);
}

/// A square that is lit goes dark when a blink period has passed, and one
/// that is dark is lit again a blink period later: a fresh square that is
/// stepped a period at a time goes dark with every other step, starting with
/// the first.
pub proof fn lemma_period_steps(e: EffectView, n: nat)
    requires
        e.timer == BLINK_PERIOD,
        e.flash_on,
    ensures
        ran(e, Seq::new(n, |i: int| BLINK_PERIOD as nat)).timer == BLINK_PERIOD,
        ran(e, Seq::new(n, |i: int| BLINK_PERIOD as nat)).flash_on == (n % 2 == 0),
        darkenings(e, Seq::new(n, |i: int| BLINK_PERIOD as nat)) == (n + 1) / 2,
    decreases n,
{
    let dts = Seq::new(n, |i: int| BLINK_PERIOD as nat);
    if n > 0 {
        let shorter = Seq::new((n - 1) as nat, |i: int| BLINK_PERIOD as nat);
        assert(dts.drop_last() =~= shorter);
        lemma_period_steps(e, (n - 1) as nat);
    }
}

/// A fresh bonus square that is stepped a blink period at a time is finished
/// after eleven periods, when it goes dark for the sixth time, and not
/// before.
pub proof fn lemma_fresh_square_lasts_eleven_periods(g: Grid, x: int, y: int, n: nat)
    ensures
        ran(EffectView::fresh(g, x, y), Seq::new(n, |i: int| BLINK_PERIOD as nat)).finished() <==> n
            >= 11,
{
    let e = EffectView::fresh(g, x, y);
    let dts = Seq::new(n, |i: int| BLINK_PERIOD as nat);
    lemma_period_steps(e, n);
    lemma_square_finishes_with_last_blink(g, x, y, dts);
}

/// When time passes on one effect that is then finished, the sixteen squares
/// of its region become bonus blocks of its colour, the rest of the board
/// stays, its points are scored once, and the effect is gone. When it is not
/// finished, the board and the score stay and the effect goes on.
pub proof fn lemma_finished_square_converts(g: Grid, e: EffectView, dt: nat)
    requires
        grid_wf(g),
        region_fits(e.x, e.y),
    ensures
        e.stepped(dt).finished() ==> advanced(g, seq![e], dt) == (Outcome {
            grid: converted(g, e.x, e.y, e.is_gold),
            effects: Seq::empty(),
            gained: bonus_points(e.is_gold),
        }),
        !e.stepped(dt).finished() ==> advanced(g, seq![e], dt) == (Outcome {
            grid: g,
            effects: seq![e.stepped(dt)],
            gained: 0,
        }),
        forall|cx: int, cy: int|
            in_grid(cx, cy) ==> #[trigger] at(converted(g, e.x, e.y, e.is_gold), cx, cy) == (if in_region(
                e.x,
                e.y,
                cx,
                cy,
            ) {
                Some(bonus_cell(e.is_gold))
            } else {
                at(g, cx, cy)
            }),
{
    reveal_with_fuel(advanced_upto, 2);
    let effects = seq![e];
    assert(effects[0] == e);
    let start = advanced_upto(g, effects, dt, 0);
    assert(start.effects =~= Seq::<EffectView>::empty());
    if !e.stepped(dt).finished() {
        assert(advanced(g, effects, dt).effects =~= seq![e.stepped(dt)]);
    }
}

/// The first time a piece is set aside it goes to the side unturned and
/// the next piece enters.
pub proof fn lemma_first_hold(s: GameView, following: TetrominoType)
    requires
        s.wf(),
        s.started,
        s.tetromino.is_some(),
        s.hold_tetromino.is_none(),
        !s.hold_used,
    ensures
        s.hold(following).hold_tetromino == Some((s.tetromino->0).unturned()),
        s.can_place(s.next_tetromino->0) ==> {
            &&& s.hold(following).tetromino == s.next_tetromino
            &&& s.hold(following).next_tetromino == Some(PieceView::fresh(following))
            &&& !s.hold(following).hold_used
        },
        !s.can_place(s.next_tetromino->0) ==> {
            &&& s.hold(following).tetromino.is_none()
            &&& s.hold(following).game_over
            &&& s.hold(following).hold_used
        },
{
}

/// Once a piece was set aside, the wish to set a piece aside does nothing
/// until a piece has entered.
pub proof fn lemma_second_hold_does_nothing(s: GameView, following: TetrominoType)
    requires
        s.hold_used,
    ensures
        s.hold(following) == s,
{
}

/// A piece may be set aside again as soon as a piece has entered.
pub proof fn lemma_entry_frees_hold(s: GameView, following: TetrominoType)
    requires
        s.started,
        s.next_tetromino matches Some(next) && s.can_place(next),
    ensures
        !s.spawn(following).hold_used,
        s.spawn(following).tetromino == s.next_tetromino,
{
}

/// Two wishes to set a piece aside, with no piece entering between them,
/// come to the same as one.
pub proof fn lemma_hold_twice(s: GameView, first: TetrominoType, second: TetrominoType)
    requires
        s.hold(first).hold_used,
    ensures
        s.hold(first).hold(second) == s.hold(first),
{
}

/// A hard drop locks the piece where it lands: the piece gets the next
/// number, and where that fills rows they wait to be taken out for the
/// whole delay, with no piece falling.
pub proof fn lemma_hard_drop_locks(s: GameView, following: TetrominoType)
    requires
        s.wf(),
        s.tetromino.is_some(),
        s.next_piece_id < u32::MAX,
    ensures
        s.hard_drop(following).next_piece_id == s.next_piece_id + 1,
        s.hard_drop(following).board == locked(
            s.board,
            landing(s.board, s.tetromino->0),
            s.next_piece_id as u32,
        ),
        full_rows(s.hard_drop(following).board).len() > 0 ==> {
            &&& s.hard_drop(following).clearing_lines == full_rows(s.hard_drop(following).board)
            &&& s.hard_drop(following).line_clear_timer == LINE_CLEAR_DELAY
            &&& s.hard_drop(following).tetromino.is_none()
        },
        full_rows(s.hard_drop(following).board).len() == 0 ==> {
            &&& s.hard_drop(following).line_clear_timer == s.line_clear_timer
            &&& s.hard_drop(following).clearing_lines == s.clearing_lines
        },
{
}

/// A frame with a hard drop, in a game in which pieces fall, locks a piece
/// in that frame. Where that fills rows, the frame ends with the rows
/// waiting and the whole delay ahead.
pub proof fn lemma_hard_drop_in_frame(
    s: GameView,
    input: Input,
    dt: nat,
    first: TetrominoType,
    second: TetrominoType,
)
    requires
        s.wf(),
        s.in_play(),
        input.hard_drop,
        !input.pause_toggle,
        s.next_piece_id < u32::MAX,
    ensures
        s.tick(input, dt, first, second).next_piece_id > s.next_piece_id,
        full_rows(s.hard_drop(first).board).len() > 0 ==> {
            &&& s.tick(input, dt, first, second).clearing_lines == full_rows(s.hard_drop(first).board)
            &&& s.tick(input, dt, first, second).line_clear_timer == LINE_CLEAR_DELAY
            &&& s.tick(input, dt, first, second).next_piece_id == s.next_piece_id + 1
        },
{
    lemma_hard_drop_locks(s, first);
    let dropped = s.hard_drop(first);
    assert(s.process_input(input, dt, first) == dropped);
}

/// A turn that would put a cell of the piece off the field changes nothing.
pub proof fn lemma_turn_off_field_is_refused(s: GameView, clockwise: bool, i: int)
    requires
        s.tetromino matches Some(p) && 0 <= i < p.cells.len() && !in_grid(
            p.pos.0 + rotate_cells(p.cells, p.t_type, clockwise)[i].0,
            p.pos.1 + rotate_cells(p.cells, p.t_type, clockwise)[i].1,
        ),
    ensures
        s.turn(clockwise) == s,
{
    let p = s.tetromino->0;
    let cells = rotate_cells(p.cells, p.t_type, clockwise);
    assert(cell_blocked(s.board, cells, p.pos, i));
}

/// A press to the side that would put a cell of the piece off the field or
/// on a taken square changes nothing.
pub proof fn lemma_blocked_move_is_refused(s: GameView)
    ensures
        !s.can_shift(-1, 0) ==> s.steer_left(true, false, 0) == s,
        !s.can_shift(1, 0) ==> s.steer_right(true, false, 0) == s,
{
}

/// Where no piece falls and the next piece cannot be at the place of entry,
/// the game is over and no longer started, and no piece enters: the board
/// and everything else stay.
pub proof fn lemma_blocked_entry_ends_game(s: GameView, following: TetrominoType)
    requires
        s.started,
        s.tetromino.is_none(),
        s.next_tetromino matches Some(next) && collides(s.board, next.cells, next.pos),
    ensures
        s.spawn(following) == (GameView { game_over: true, started: false, ..s }),
        s.spawn(following).game_over,
        !s.spawn(following).started,
        s.spawn(following).tetromino.is_none(),
        s.spawn(following).board == s.board,
{
}

} // verus!

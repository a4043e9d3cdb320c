//! Every rule leads from a well-formed game to a well-formed game.

use crate::board::{
    cell_blocked,
    collides,
    covers_upto,
    empty_row,
    full_rows,
    grid_wf,
    in_grid,
    lemma_free_when_no_collision,
    lemma_full_rows,
    lemma_without_rows_origin,
    lemma_without_rows_wf,
    locked,
    piece_cell,
    without_rows,
    Grid,
};
use crate::geometry::{
    lemma_canonical_is_orientation,
    lemma_fresh_on_field,
    lemma_orientation_reach,
    lemma_rotate_keeps_orientation,
    rotate_cells,
    PieceView,
    TetrominoType,
    GRID_HEIGHT,
    GRID_WIDTH,
};
use crate::input::Input;
use crate::rules::{brought_back, effects_distinct, ids_below, landing, GameView};
use crate::squares::{
    advanced_upto,
    at,
    converted,
    detected_upto,
    effect_at,
    effects_fit,
    in_region,
    lemma_detected_positions,
    region_fits,
    EffectView,
    SCAN_COLUMNS,
    SCAN_ROWS,
};
use crate::settings::fall_interval;
use crate::timing::run_on;
use vstd::prelude::*;

verus! {

/// A piece that can be placed lies on the field.
pub proof fn lemma_placed_on_field(g: Grid, p: PieceView)
    requires
        !collides(g, p.cells, p.pos),
    ensures
        p.on_field(),
{
    lemma_free_when_no_collision(g, p.cells, p.pos);
    assert forall|i: int| 0 <= i < p.cells.len() implies {
        &&& 0 <= (#[trigger] p.cell(i)).0 < GRID_WIDTH
        &&& 0 <= p.cell(i).1 < GRID_HEIGHT
    } by {
        assert(p.cell(i) == piece_cell(p.cells, p.pos, i));
    }
}

/// The anchor of a piece that lies on the field is on the field or a few
/// squares off it.
pub proof fn lemma_anchor_near_field(p: PieceView)
    requires
        p.wf(),
        p.on_field(),
    ensures
        p.cells.len() == 4,
        -3 <= p.pos.0 <= GRID_WIDTH + 1,
        -3 <= p.pos.1 <= GRID_HEIGHT + 1,
        forall|i: int| 0 <= i < 4 ==> -2 <= (#[trigger] p.cells[i]).0 <= 3 && -2 <= p.cells[i].1 <= 3,
{
    lemma_orientation_reach(p.cells, p.t_type);
    assert(0 <= p.cell(0).0 < GRID_WIDTH);
    assert(-2 <= p.cells[0].0 <= 3);
}

/// Locking a piece under a number keeps the numbers on the board below the
/// number after it.
pub proof fn lemma_locked_ids(g: Grid, p: PieceView, id: u32)
    requires
        grid_wf(g),
        ids_below(g, id as nat),
    ensures
        grid_wf(locked(g, p, id)),
        ids_below(locked(g, p, id), (id + 1) as nat),
{
    let out = locked(g, p, id);
    assert forall|x: int, y: int| in_grid(x, y) implies ((#[trigger] at(out, x, y)) matches Some(cell)
        ==> cell.id < id + 1) by {
        if !covers_upto(p.cells, p.pos, p.cells.len() as int, x, y) {
            assert(at(out, x, y) == at(g, x, y));
        }
    }
}

/// Taking rows out keeps the numbers on the board below the bound.
pub proof fn lemma_without_rows_ids(g: Grid, rows: Seq<usize>, bound: nat)
    requires
        grid_wf(g),
        ids_below(g, bound),
    ensures
        grid_wf(without_rows(g, rows)),
        ids_below(without_rows(g, rows), bound),
{
    lemma_without_rows_wf(g, rows);
    lemma_without_rows_origin(g, rows);
    let out = without_rows(g, rows);
    assert forall|x: int, y: int| in_grid(x, y) implies ((#[trigger] at(out, x, y)) matches Some(cell)
        ==> cell.id < bound) by {
        if out[y] != empty_row() {
            let from = choose|from: int| 0 <= from < GRID_HEIGHT && out[y] == #[trigger] g[from];
            assert(at(out, x, y) == at(g, x, from));
        }
    }
}

/// Converting a region keeps the numbers on the board below any bound
/// above zero.
pub proof fn lemma_converted_ids(g: Grid, x: int, y: int, is_gold: bool, bound: nat)
    requires
        grid_wf(g),
        ids_below(g, bound),
        bound >= 1,
    ensures
        grid_wf(converted(g, x, y, is_gold)),
        ids_below(converted(g, x, y, is_gold), bound),
{
    let out = converted(g, x, y, is_gold);
    assert forall|cx: int, cy: int| in_grid(cx, cy) implies ((#[trigger] at(out, cx, cy)) matches Some(
        cell,
    ) ==> cell.id < bound) by {
        if !in_region(x, y, cx, cy) {
            assert(at(out, cx, cy) == at(g, cx, cy));
        }
    }
}

/// The effects that a scan starts lie on the field, and together with the
/// effects that blink already no two have the same top-left square.
pub proof fn lemma_detected_wf(g: Grid, active: Seq<EffectView>, n: nat)
    requires
        effects_fit(active),
        effects_distinct(active),
    ensures
        effects_fit(active + detected_upto(g, active, n)),
        effects_distinct(active + detected_upto(g, active, n)),
{
    lemma_detected_positions(g, active, n);
    let found = detected_upto(g, active, n);
    let all = active + found;
    assert forall|i: int| 0 <= i < all.len() implies region_fits((#[trigger] all[i]).x, all[i].y) by {
        if i >= active.len() {
            assert(all[i] == found[i - active.len()]);
        }
    }
    lemma_detected_order(g, active, n);
    assert forall|i: int, j: int| 0 <= i < j < all.len() implies !((#[trigger] all[i]).x == (
    #[trigger] all[j]).x && all[i].y == all[j].y) by {
        if j >= active.len() {
            assert(all[j] == found[j - active.len()]);
            if i < active.len() {
                assert(!effect_at(active, all[j].x, all[j].y));
            } else {
                assert(all[i] == found[i - active.len()]);
            }
        }
    }
}

/// The effects that a scan starts come in the order of the scan.
proof fn lemma_detected_order(g: Grid, active: Seq<EffectView>, n: nat)
    ensures
        forall|i: int, j: int|
            0 <= i < j < detected_upto(g, active, n).len() ==> (#[trigger] detected_upto(g, active, n)[i]).y
                * SCAN_COLUMNS + detected_upto(g, active, n)[i].x < (#[trigger] detected_upto(
                g,
                active,
                n,
            )[j]).y * SCAN_COLUMNS + detected_upto(g, active, n)[j].x,
    decreases n,
{
    if n > 0 {
        lemma_detected_order(g, active, (n - 1) as nat);
        lemma_detected_positions(g, active, (n - 1) as nat);
        lemma_detected_positions(g, active, n);
        let earlier = detected_upto(g, active, (n - 1) as nat);
        let now = detected_upto(g, active, n);
        assert forall|i: int, j: int| 0 <= i < j < now.len() implies (#[trigger] now[i]).y
            * SCAN_COLUMNS + now[i].x < (#[trigger] now[j]).y * SCAN_COLUMNS + now[j].x by {
            assert(now[i] == earlier[i]);
            if j < earlier.len() {
                assert(now[j] == earlier[j]);
            } else {
                let k = n - 1;
                assert(now[j].x == k % (SCAN_COLUMNS as int) && now[j].y == k / (SCAN_COLUMNS as int));
            }
        }
    }
}

/// Letting time pass on effects keeps the board and the effects well-formed.
pub proof fn lemma_advanced_wf(g: Grid, effects: Seq<EffectView>, dt: nat, n: nat, bound: nat)
    requires
        grid_wf(g),
        ids_below(g, bound),
        bound >= 1,
        effects_fit(effects),
        effects_distinct(effects),
        n <= effects.len(),
    ensures
        grid_wf(advanced_upto(g, effects, dt, n).grid),
        ids_below(advanced_upto(g, effects, dt, n).grid, bound),
        effects_fit(advanced_upto(g, effects, dt, n).effects),
        effects_distinct(advanced_upto(g, effects, dt, n).effects),
        advanced_upto(g, effects, dt, n).effects.len() <= n,
        forall|k: int|
            0 <= k < advanced_upto(g, effects, dt, n).effects.len() ==> exists|i: int|
                0 <= i < n && (#[trigger] advanced_upto(g, effects, dt, n).effects[k]).x == (
                #[trigger] effects[i]).x && advanced_upto(g, effects, dt, n).effects[k].y == effects[i].y,
    decreases n,
{
    if n > 0 {
        lemma_advanced_wf(g, effects, dt, (n - 1) as nat, bound);
        let earlier = advanced_upto(g, effects, dt, (n - 1) as nat);
        let now = advanced_upto(g, effects, dt, n);
        let e = effects[n - 1].stepped(dt);
        assert(e.x == effects[n - 1].x && e.y == effects[n - 1].y);
        assert(region_fits(e.x, e.y));
        if e.finished() {
            lemma_converted_ids(earlier.grid, e.x, e.y, e.is_gold, bound);
            assert forall|k: int| 0 <= k < now.effects.len() implies exists|i: int|
                0 <= i < n && (#[trigger] now.effects[k]).x == (#[trigger] effects[i]).x
                    && now.effects[k].y == effects[i].y by {
                let i = choose|i: int|
                    0 <= i < n - 1 && (#[trigger] earlier.effects[k]).x == (#[trigger] effects[i]).x
                        && earlier.effects[k].y == effects[i].y;
                assert(now.effects[k].x == effects[i].x);
            }
        } else {
            assert(now.effects == earlier.effects.push(e));
            assert forall|k: int| 0 <= k < now.effects.len() implies exists|i: int|
                0 <= i < n && (#[trigger] now.effects[k]).x == (#[trigger] effects[i]).x
                    && now.effects[k].y == effects[i].y by {
                if k < earlier.effects.len() {
                    let i = choose|i: int|
                        0 <= i < n - 1 && (#[trigger] earlier.effects[k]).x == (#[trigger] effects[i]).x
                            && earlier.effects[k].y == effects[i].y;
                    assert(now.effects[k].x == effects[i].x);
                } else {
                    assert(now.effects[k].x == effects[n - 1].x);
                }
            }
            assert forall|i: int| 0 <= i < now.effects.len() implies region_fits(
                (#[trigger] now.effects[i]).x,
                now.effects[i].y,
            ) by {
                if i < earlier.effects.len() {
                    assert(now.effects[i] == earlier.effects[i]);
                }
            }
            assert forall|i: int, j: int| 0 <= i < j < now.effects.len() implies !((
            #[trigger] now.effects[i]).x == (#[trigger] now.effects[j]).x && now.effects[i].y
                == now.effects[j].y) by {
                assert(now.effects[i] == earlier.effects[i]);
                if j < earlier.effects.len() {
                    assert(now.effects[j] == earlier.effects[j]);
                } else {
                    let src = choose|src: int|
                        0 <= src < n - 1 && (#[trigger] earlier.effects[i]).x == (
                        #[trigger] effects[src]).x && earlier.effects[i].y == effects[src].y;
                    assert(!(effects[src].x == effects[n - 1].x && effects[src].y == effects[n - 1].y));
                }
            }
        }
    }
}

/// A piece that falls as far as it goes keeps its column, its shape, its
/// colour and its kind, stays on the field, and cannot fall further.
pub proof fn lemma_landing(g: Grid, p: PieceView)
    requires
        p.wf(),
        p.on_field(),
    ensures
        landing(g, p).wf(),
        landing(g, p).on_field(),
        landing(g, p) == p.shifted(0, landing(g, p).pos.1 - p.pos.1),
        landing(g, p).pos.1 >= p.pos.1,
        collides(g, p.cells, (p.pos.0, landing(g, p).pos.1 + 1)),
        forall|dy: int|
            0 < dy <= landing(g, p).pos.1 - p.pos.1 ==> !#[trigger] collides(
                g,
                p.cells,
                (p.pos.0, p.pos.1 + dy),
            ),
    decreases GRID_HEIGHT - p.pos.1 - p.cells[0].1,
{
    lemma_anchor_near_field(p);
    if collides(g, p.cells, (p.pos.0, p.pos.1 + 1)) {
        assert(landing(g, p) == p);
        assert(p =~= p.shifted(0, 0));
    } else {
        let q = p.shifted(0, 1);
        lemma_placed_on_field(g, q);
        assert(!cell_blocked(g, p.cells, (p.pos.0, p.pos.1 + 1), 0));
        lemma_landing(g, q);
        let end = landing(g, q);
        assert(landing(g, p) == end);
        assert(end =~= p.shifted(0, end.pos.1 - p.pos.1));
        assert forall|dy: int| 0 < dy <= end.pos.1 - p.pos.1 implies !#[trigger] collides(
            g,
            p.cells,
            (p.pos.0, p.pos.1 + dy),
        ) by {
            if dy > 1 {
                assert(!collides(g, q.cells, (q.pos.0, q.pos.1 + (dy - 1))));
            }
        }
    }
}

impl GameView {
    /// The next piece may always enter.
    pub proof fn lemma_spawn(self, following: TetrominoType)
        requires
            self.inv(),
            following.is_standard(),
        ensures
            self.spawn(following).wf(),
    {
        if self.started {
            let next = self.next_tetromino->0;
            lemma_fresh_on_field(next.t_type);
            lemma_fresh_on_field(following);
        }
    }

    /// A scan for bonus squares keeps a game well-formed.
    pub proof fn lemma_detect(self)
        requires
            self.inv(),
        ensures
            self.detect().inv(),
            self.wf() ==> self.detect().wf(),
            self.detect().active_squares.len() <= self.active_squares.len() + SCAN_COLUMNS * SCAN_ROWS,
    {
        lemma_detected_wf(self.board, self.active_squares, (SCAN_COLUMNS * SCAN_ROWS) as nat);
        lemma_detected_positions(self.board, self.active_squares, (SCAN_COLUMNS * SCAN_ROWS) as nat);
    }

    /// Locking the piece keeps a game well-formed.
    pub proof fn lemma_lock(self, following: TetrominoType)
        requires
            self.inv(),
            following.is_standard(),
            self.tetromino.is_some() ==> self.next_piece_id < u32::MAX,
        ensures
            self.lock(following).wf(),
    {
        let placed = match self.tetromino {
            Some(p) => GameView {
                board: locked(self.board, p, self.next_piece_id as u32),
                next_piece_id: self.next_piece_id + 1,
                tetromino: None,
                ..self
            },
            None => self,
        };
        match self.tetromino {
            Some(p) => {
                lemma_locked_ids(self.board, p, self.next_piece_id as u32);
            },
            None => {},
        }
        assert(placed.inv());
        let rows = full_rows(placed.board);
        if rows.len() > 0 {
            lemma_full_rows(placed.board, GRID_HEIGHT as nat);
        } else {
            placed.lemma_spawn(following);
            placed.spawn(following).lemma_detect();
        }
    }

    /// Taking out the rows that wait keeps a game well-formed.
    pub proof fn lemma_clear_lines(self, following: TetrominoType)
        requires
            self.inv(),
            following.is_standard(),
        ensures
            self.clear_lines(following).wf(),
    {
        lemma_without_rows_ids(self.board, self.clearing_lines, self.next_piece_id);
        let cleared = GameView {
            board: without_rows(self.board, self.clearing_lines),
            lines_cleared: self.lines_cleared + self.clearing_lines.len(),
            clearing_lines: Seq::empty(),
            line_clear_timer: 0,
            ..self
        };
        assert(cleared.inv());
        cleared.lemma_spawn(following);
        cleared.spawn(following).lemma_detect();
    }

    /// Letting time pass on the bonus squares keeps a game well-formed.
    pub proof fn lemma_advance_effects(self, dt: nat)
        requires
            self.inv(),
        ensures
            self.advance_effects(dt).inv(),
            self.wf() ==> self.advance_effects(dt).wf(),
    {
        lemma_advanced_wf(
            self.board,
            self.active_squares,
            dt,
            self.active_squares.len(),
            self.next_piece_id,
        );
    }

    /// A move that was found possible keeps a game well-formed.
    pub proof fn lemma_shift(self, dx: int, dy: int)
        requires
            self.wf(),
            self.can_shift(dx, dy),
        ensures
            self.shift(dx, dy).wf(),
    {
        let p = self.tetromino->0;
        lemma_placed_on_field(self.board, p.shifted(dx, dy));
    }

    /// Steering keeps a game well-formed.
    pub proof fn lemma_steer(self, pressed: bool, held: bool, dt: nat)
        requires
            self.wf(),
        ensures
            self.steer_left(pressed, held, dt).wf(),
            self.steer_right(pressed, held, dt).wf(),
    {
        if self.can_shift(-1, 0) {
            self.lemma_shift(-1, 0);
        }
        if self.can_shift(1, 0) {
            self.lemma_shift(1, 0);
        }
    }

    /// A turn keeps a game well-formed.
    pub proof fn lemma_turn(self, clockwise: bool)
        requires
            self.wf(),
        ensures
            self.turn(clockwise).wf(),
    {
        match self.tetromino {
            Some(p) => {
                let turned = p.with_cells(rotate_cells(p.cells, p.t_type, clockwise));
                lemma_rotate_keeps_orientation(p.cells, p.t_type, clockwise);
                if self.can_place(turned) {
                    lemma_placed_on_field(self.board, turned);
                }
            },
            None => {},
        }
    }

    /// A soft drop keeps a game well-formed.
    pub proof fn lemma_soft_drop(self)
        requires
            self.wf(),
        ensures
            self.soft_drop().wf(),
    {
        let held = GameView { fall_timer: 0, ..self };
        if held.can_shift(0, 1) {
            held.lemma_shift(0, 1);
        }
    }

    /// Setting a piece aside keeps a game well-formed.
    pub proof fn lemma_hold(self, following: TetrominoType)
        requires
            self.wf(),
            following.is_standard(),
        ensures
            self.hold(following).wf(),
    {
        match self.tetromino {
            Some(p) => {
                if !self.hold_used {
                    match self.hold_tetromino {
                        Some(held) => {
                            lemma_canonical_is_orientation(held.t_type);
                            if self.can_place(brought_back(held)) {
                                lemma_placed_on_field(self.board, brought_back(held));
                            }
                        },
                        None => {
                            let aside = GameView {
                                hold_used: true,
                                hold_tetromino: Some(p.unturned()),
                                tetromino: None,
                                ..self
                            };
                            aside.lemma_spawn(following);
                        },
                    }
                }
            },
            None => {},
        }
    }

    /// A hard drop keeps a game well-formed.
    pub proof fn lemma_hard_drop(self, following: TetrominoType)
        requires
            self.wf(),
            following.is_standard(),
            self.tetromino.is_some() ==> self.next_piece_id < u32::MAX,
        ensures
            self.hard_drop(following).wf(),
    {
        match self.tetromino {
            Some(p) => {
                lemma_landing(self.board, p);
                (GameView { tetromino: Some(landing(self.board, p)), ..self }).lemma_lock(following);
            },
            None => {
                self.lemma_lock(following);
            },
        }
    }

    /// The turns of a frame keep a game well-formed.
    pub proof fn lemma_turns(self, input: Input)
        requires
            self.wf(),
        ensures
            self.turns(input).wf(),
    {
        self.lemma_turn(false);
        let turned_ccw = if input.rotate_ccw {
            self.turn(false)
        } else {
            self
        };
        turned_ccw.lemma_turn(true);
    }

    /// The moves of a frame keep a game well-formed.
    pub proof fn lemma_moves(self, input: Input, dt: nat)
        requires
            self.wf(),
        ensures
            self.moves(input, dt).wf(),
    {
        self.lemma_steer(input.left_pressed, input.left_held, dt);
        let left = self.steer_left(input.left_pressed, input.left_held, dt);
        left.lemma_steer(input.right_pressed, input.right_held, dt);
        let steered = left.steer_right(input.right_pressed, input.right_held, dt);
        steered.lemma_turns(input);
        steered.turns(input).lemma_soft_drop();
    }

    /// Carrying out the wishes of a frame keeps a game well-formed.
    pub proof fn lemma_process_input(self, input: Input, dt: nat, following: TetrominoType)
        requires
            self.wf(),
            following.is_standard(),
            self.process_input(input, dt, following).next_piece_id <= u32::MAX,
        ensures
            self.process_input(input, dt, following).wf(),
    {
        self.lemma_process_input_counts(input, dt, following);
        if input.hard_drop {
            self.lemma_hard_drop(following);
        } else {
            self.lemma_moves(input, dt);
            let tuned = self.moves(input, dt).steer_music(input);
            assert(tuned.wf());
            tuned.lemma_hold(following);
        }
    }

    /// The fall keeps a game well-formed.
    pub proof fn lemma_fall(self, soft_drop: bool, dt: nat, following: TetrominoType)
        requires
            self.wf(),
            following.is_standard(),
            self.fall(soft_drop, dt, following).next_piece_id <= u32::MAX,
        ensures
            self.fall(soft_drop, dt, following).wf(),
    {
        match self.tetromino {
            Some(p) => {
                let interval = fall_interval(self.difficulty, soft_drop);
                let waited = run_on(self.fall_timer, dt);
                if waited >= interval {
                    let due = GameView { fall_timer: (waited - interval) as nat, ..self };
                    if due.can_shift(0, 1) {
                        due.lemma_shift(0, 1);
                    } else {
                        due.lemma_lock_counts(following);
                        due.lemma_lock(following);
                    }
                }
            },
            None => {},
        }
    }

    /// A frame keeps a game well-formed.
    pub proof fn lemma_tick(self, input: Input, dt: nat, first: TetrominoType, second: TetrominoType)
        requires
            self.wf(),
            first.is_standard(),
            second.is_standard(),
            self.tick(input, dt, first, second).next_piece_id <= u32::MAX,
        ensures
            self.tick(input, dt, first, second).wf(),
    {
        let now = self.toggle_pause(input.pause_toggle);
        assert(now.wf());
        if now.paused || !now.started || now.game_over {
            // The game stands still.
        } else if now.line_clear_timer > 0 {
            now.lemma_clear_lines(first);
        } else {
            let played = now.process_input(input, dt, first);
            let fallen = played.fall(input.soft_drop, dt, second);
            assert(played.next_piece_id <= fallen.next_piece_id && fallen.next_piece_id
                == fallen.advance_effects(dt).next_piece_id) by {
                played.lemma_fall_counts(input.soft_drop, dt, second);
            }
            assert(played.wf()) by {
                now.lemma_process_input(input, dt, first);
            }
            assert(fallen.wf()) by {
                played.lemma_fall(input.soft_drop, dt, second);
            }
            fallen.lemma_advance_effects(dt);
        }
    }

    /// A game that starts is well-formed.
    pub proof fn lemma_start(self, first: TetrominoType, second: TetrominoType)
        requires
            first.is_standard(),
            second.is_standard(),
        ensures
            self.start(first, second).wf(),
    {
        lemma_fresh_on_field(first);
        lemma_fresh_on_field(second);
        let s = self.start(first, second);
        assert(grid_wf(s.board));
        assert(ids_below(s.board, 1));
    }

    /// A game that has not started is well-formed.
    pub proof fn lemma_initial()
        ensures
            GameView::initial().wf(),
    {
        let s = GameView::initial();
        assert(grid_wf(s.board));
        assert(ids_below(s.board, 1));
    }
}

} // verus!

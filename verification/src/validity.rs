//! Tests, at run time, of what the operations of a game take for granted.
//!
//! The fields of a game are open to everyone. Who fills them by hand can find
//! out here whether the game is one that the operations accept.

use crate::board::{in_grid, rows_ascending, Board};
use crate::game::GameState;
use crate::geometry::{
    is_orientation,
    lemma_orientation_reach,
    lemma_rotate_keeps_orientation,
    rotate_cells,
    rotate_shape,
    shape_cells,
    turned,
    PieceView,
    Shape,
    Tetromino,
    TetrominoType,
    GRID_HEIGHT,
    GRID_WIDTH,
    SPAWN_X,
    SPAWN_Y,
};
use crate::rules::{effects_distinct, ids_below};
use crate::squares::{at, effect_views, effects_fit, region_fits, SquareEffect, SQUARE_SIZE};
use vstd::prelude::*;

verus! {

/// Tests whether two shapes have the same offsets in the same order.
pub fn same_shape(a: &Shape, b: &Shape) -> (r: bool)
    ensures
        r == (shape_cells(*a) == shape_cells(*b)),
{
    let mut i: usize = 0;
    while i < 4
        invariant
            i <= 4,
            forall|k: int| 0 <= k < i ==> (#[trigger] shape_cells(*a)[k]) == shape_cells(*b)[k],
        decreases 4 - i,
    {
        if a[i][0] != b[i][0] || a[i][1] != b[i][1] {
            assert(shape_cells(*a)[i as int] != shape_cells(*b)[i as int]);
            return false;
        }
        i += 1;
    }
    assert(shape_cells(*a) =~= shape_cells(*b));
    true
}

/// Tests whether `shape` is the shape of a piece of kind `t_type` after some
/// number of quarter turns.
pub fn is_orientation_of(shape: &Shape, t_type: TetrominoType) -> (r: bool)
    requires
        t_type.is_standard(),
    ensures
        r == is_orientation(shape_cells(*shape), t_type),
{
    let ghost base = t_type.canonical_cells();
    let mut candidate = t_type.canonical_shape();
    let mut turns: usize = 0;
    while turns < 4
        invariant
            turns <= 4,
            t_type.is_standard(),
            base == t_type.canonical_cells(),
            shape_cells(candidate) == turned(base, t_type, turns as nat),
            forall|k: nat| k < turns ==> shape_cells(*shape) != #[trigger] turned(base, t_type, k),
        decreases 4 - turns,
    {
        if same_shape(shape, &candidate) {
            return true;
        }
        proof {
            assert(is_orientation(shape_cells(candidate), t_type));
            lemma_rotate_keeps_orientation(shape_cells(candidate), t_type, true);
            lemma_orientation_reach(shape_cells(candidate), t_type);
            lemma_orientation_reach(rotate_cells(shape_cells(candidate), t_type, true), t_type);
        }
        candidate = rotate_shape(&candidate, t_type, true);
        turns += 1;
    }
    false
}

impl Tetromino {
    /// Tests whether the piece is of one of the seven kinds and in one of
    /// the orientations of its kind.
    pub fn is_well_formed(&self) -> (r: bool)
        ensures
            r == self@.wf(),
    {
        !self.t_type.is_bonus() && is_orientation_of(&self.shape, self.t_type)
    }

    /// Tests whether every cell of the piece lies on the field.
    pub fn is_on_field(&self) -> (r: bool)
        ensures
            r == self@.on_field(),
    {
        let mut i: usize = 0;
        while i < 4
            invariant
                i <= 4,
                forall|k: int|
                    0 <= k < i ==> {
                        &&& 0 <= (#[trigger] self@.cell(k)).0 < GRID_WIDTH
                        &&& 0 <= self@.cell(k).1 < GRID_HEIGHT
                    },
            decreases 4 - i,
        {
            let x: i64 = self.pos.0 as i64 + self.shape[i][0] as i64;
            let y: i64 = self.pos.1 as i64 + self.shape[i][1] as i64;
            assert(self@.cell(i as int) == (x as int, y as int));
            if x < 0 || x >= GRID_WIDTH as i64 || y < 0 || y >= GRID_HEIGHT as i64 {
                return false;
            }
            i += 1;
        }
        true
    }

    /// Tests whether the piece is as a piece of its kind is when it enters
    /// the field.
    pub fn is_fresh(&self) -> (r: bool)
        ensures
            r == (self.t_type.is_standard() && self@ == PieceView::fresh(self.t_type)),
    {
        if self.t_type.is_bonus() {
            return false;
        }
        let unturned = same_shape(&self.shape, &self.t_type.canonical_shape());
        let r = unturned && self.pos.0 == SPAWN_X && self.pos.1 == SPAWN_Y && self.color
            == self.t_type.color();
        assert(r ==> self@ =~= PieceView::fresh(self.t_type));
        r
    }

    /// Tests whether the piece is of one of the seven kinds and unturned.
    pub fn is_unturned(&self) -> (r: bool)
        ensures
            r == (self.t_type.is_standard() && self@.cells == self.t_type.canonical_cells()),
    {
        !self.t_type.is_bonus() && same_shape(&self.shape, &self.t_type.canonical_shape())
    }
}

/// Tests whether every effect of the list lies on the field and no two have
/// the same top-left square.
pub fn effects_are_well_formed(effects: &Vec<SquareEffect>) -> (r: bool)
    ensures
        r == (effects_fit(effect_views(effects@)) && effects_distinct(effect_views(effects@))),
{
    let ghost views = effect_views(effects@);
    let mut i: usize = 0;
    while i < effects.len()
        invariant
            i <= effects.len(),
            views == effect_views(effects@),
            forall|k: int| 0 <= k < i ==> region_fits((#[trigger] views[k]).x, views[k].y),
            forall|a: int, b: int|
                0 <= a < b < i ==> !((#[trigger] views[a]).x == (#[trigger] views[b]).x && views[a].y
                    == views[b].y),
        decreases effects.len() - i,
    {
        let e = &effects[i];
        assert(e@ == views[i as int]);
        if e.x > GRID_WIDTH - SQUARE_SIZE || e.y > GRID_HEIGHT - SQUARE_SIZE {
            assert(!region_fits(views[i as int].x, views[i as int].y));
            return false;
        }
        let mut j: usize = 0;
        while j < i
            invariant
                j <= i,
                i < effects.len(),
                views == effect_views(effects@),
                e@ == views[i as int],
                forall|a: int|
                    0 <= a < j ==> !((#[trigger] views[a]).x == views[i as int].x && views[a].y
                        == views[i as int].y),
            decreases i - j,
        {
            if effects[j].x == e.x && effects[j].y == e.y {
                assert(views[j as int].x == views[i as int].x && views[j as int].y == views[i as int].y);
                return false;
            }
            j += 1;
        }
        i += 1;
    }
    true
}

/// Tests whether the row numbers rise strictly and stay on the field.
pub fn rows_are_ascending(rows: &Vec<usize>) -> (r: bool)
    ensures
        r == rows_ascending(rows@),
{
    let mut i: usize = 0;
    while i < rows.len()
        invariant
            i <= rows.len(),
            forall|k: int| 0 <= k < i ==> (#[trigger] rows@[k]) < GRID_HEIGHT,
            forall|a: int, b: int| 0 <= a < b < i ==> rows@[a] < rows@[b],
        decreases rows.len() - i,
    {
        if rows[i] >= GRID_HEIGHT {
            return false;
        }
        if i > 0 && rows[i - 1] >= rows[i] {
            return false;
        }
        i += 1;
    }
    true
}

/// Tests whether every block of the board carries a number below `bound`.
pub fn ids_are_below(board: &Board, bound: u32) -> (r: bool)
    ensures
        r == ids_below(board@, bound as nat),
{
    let mut k: usize = 0;
    while k < GRID_WIDTH * GRID_HEIGHT
        invariant
            k <= GRID_WIDTH * GRID_HEIGHT,
            forall|x: int, y: int|
                in_grid(x, y) && y * GRID_WIDTH + x < k ==> ((#[trigger] at(board@, x, y)) matches Some(
                    cell,
                ) ==> cell.id < bound),
        decreases GRID_WIDTH * GRID_HEIGHT - k,
    {
        let x: usize = k % GRID_WIDTH;
        let y: usize = k / GRID_WIDTH;
        match board.get(x, y) {
            Some(cell) => {
                if cell.id >= bound {
                    assert(at(board@, x as int, y as int) == Some(cell));
                    return false;
                }
            },
            None => {},
        }
        assert forall|ax: int, ay: int| in_grid(ax, ay) && ay * GRID_WIDTH + ax < k + 1 implies ((
        #[trigger] at(board@, ax, ay)) matches Some(cell) ==> cell.id < bound) by {
            if ay * GRID_WIDTH + ax == k {
                assert(ax == x && ay == y);
            }
        }
        k += 1;
    }
    true
}

impl GameState {
    /// Tests whether the game is as a game is at every step of an operation:
    /// whether all holds of it that the operations take for granted, but
    /// that a piece falls while the game goes on.
    pub fn has_invariant(&self) -> (r: bool)
        ensures
            r == self@.inv(),
    {
        let active = match &self.tetromino {
            Some(p) => p.is_well_formed() && p.is_on_field(),
            None => true,
        };
        let next = match &self.next_tetromino {
            Some(p) => p.is_fresh(),
            None => true,
        };
        let held = match &self.hold_tetromino {
            Some(p) => p.is_unturned(),
            None => true,
        };
        let waiting = rows_are_ascending(&self.clearing_lines) && (self.clearing_lines.len() == 0) == (
        self.line_clear_timer == 0);
        let flags = (!self.started || self.next_tetromino.is_some()) && (!self.game_over
            || !self.started);
        let numbers = self.next_piece_id >= 1 && ids_are_below(&self.board, self.next_piece_id);
        let effects = effects_are_well_formed(&self.active_squares);
        let music = self.mus_mgr.is_well_formed();
        active && next && held && waiting && flags && numbers && effects && music
    }

    /// Tests whether the game is one that the operations accept.
    pub fn is_well_formed(&self) -> (r: bool)
        ensures
            r == self.wf(),
    {
        self.has_invariant() && (!self.started || self.tetromino.is_some() || self.line_clear_timer > 0)
    }
}

} // verus!

//! What a frame shows of a game, as far as it follows from the rules: the
//! colour of each block, where the falling piece would land, whether the
//! rows that wait are lit, and how much room a shape takes.

use crate::board::in_grid;
use crate::game::GameState;
use crate::geometry::{piece_view, shape_cells, Color, PieceView, Shape, Tetromino, GRID_HEIGHT};
use crate::invariants::{lemma_anchor_near_field, lemma_placed_on_field};
use crate::rules::{landing, GameView};
use crate::squares::{
    at,
    effect_views,
    effects_fit,
    in_region,
    region_fits,
    EffectView,
    SQUARE_SIZE,
};
use vstd::prelude::*;

verus! {

/// A sixtieth of a second: the time for which waiting rows stay lit or dark.
pub const FLASH_TIME: u64 = 50_000;

/// The colour of a bonus square while it is lit.
pub open spec fn lit_color(is_gold: bool) -> Color {
    if is_gold {
        Color::Gold
    } else {
        Color::Silver
    }
}

/// The first effect of the list, from place `from` on, whose region holds
/// the square `(x, y)`.
pub open spec fn first_covering(effects: Seq<EffectView>, x: int, y: int, from: nat) -> Option<EffectView>
    decreases effects.len() - from,
{
    if from >= effects.len() {
        None
    } else if in_region(effects[from as int].x, effects[from as int].y, x, y) {
        Some(effects[from as int])
    } else {
        first_covering(effects, x, y, from + 1)
    }
}

/// The colour that the square `(x, y)` shows: none for a free square; for a
/// block in a bonus square that blinks, the colour of the square while it is
/// lit and the colour that was there when the square was found while it is
/// dark; else the colour of the block.
pub open spec fn shown_color(s: GameView, x: int, y: int) -> Option<Color> {
    match at(s.board, x, y) {
        None => None,
        Some(cell) => match first_covering(s.active_squares, x, y, 0) {
            Some(e) => if e.flash_on {
                Some(lit_color(e.is_gold))
            } else {
                Some(e.original[y - e.y][x - e.x].color)
            },
            None => Some(cell.color),
        },
    }
}

/// True when the rows that wait to be taken out are lit: they change between
/// lit and dark with every `FLASH_TIME` of the delay.
pub open spec fn rows_lit(s: GameView) -> bool {
    s.line_clear_timer > 0 && (s.line_clear_timer / (FLASH_TIME as nat)) % 2 == 0
}

/// The smallest and the largest offset of a shape in each direction.
pub struct Extent {
    pub min_x: i32,
    pub min_y: i32,
    pub max_x: i32,
    pub max_y: i32,
}

/// True when `extent` bounds the first `n` cells and each bound is reached.
pub open spec fn bounds_upto(cells: Seq<(int, int)>, extent: Extent, n: int) -> bool {
    &&& forall|i: int|
        0 <= i < n ==> extent.min_x <= (#[trigger] cells[i]).0 <= extent.max_x && extent.min_y
            <= cells[i].1 <= extent.max_y
    &&& exists|i: int| 0 <= i < n && (#[trigger] cells[i]).0 == extent.min_x
    &&& exists|i: int| 0 <= i < n && (#[trigger] cells[i]).0 == extent.max_x
    &&& exists|i: int| 0 <= i < n && (#[trigger] cells[i]).1 == extent.min_y
    &&& exists|i: int| 0 <= i < n && (#[trigger] cells[i]).1 == extent.max_y
}

/// Finds the smallest and the largest offset of a shape in each direction.
pub fn shape_extent(shape: &Shape) -> (extent: Extent)
    ensures
        bounds_upto(shape_cells(*shape), extent, 4),
{
    let ghost cells = shape_cells(*shape);
    let mut extent = Extent {
        min_x: shape[0][0],
        min_y: shape[0][1],
        max_x: shape[0][0],
        max_y: shape[0][1],
    };
    assert(cells[0] == (shape[0][0] as int, shape[0][1] as int));
    let mut i: usize = 1;
    while i < 4
        invariant
            1 <= i <= 4,
            cells == shape_cells(*shape),
            bounds_upto(cells, extent, i as int),
        decreases 4 - i,
    {
        let bx: i32 = shape[i][0];
        let by: i32 = shape[i][1];
        assert(cells[i as int] == (bx as int, by as int));
        let ghost before = extent;
        if bx < extent.min_x {
            extent.min_x = bx;
        }
        if bx > extent.max_x {
            extent.max_x = bx;
        }
        if by < extent.min_y {
            extent.min_y = by;
        }
        if by > extent.max_y {
            extent.max_y = by;
        }
        proof {
            let a = choose|k: int| 0 <= k < i && (#[trigger] cells[k]).0 == before.min_x;
            let b = choose|k: int| 0 <= k < i && (#[trigger] cells[k]).0 == before.max_x;
            let c = choose|k: int| 0 <= k < i && (#[trigger] cells[k]).1 == before.min_y;
            let d = choose|k: int| 0 <= k < i && (#[trigger] cells[k]).1 == before.max_y;
            assert(cells[if bx < before.min_x { i as int } else { a }].0 == extent.min_x);
            assert(cells[if bx > before.max_x { i as int } else { b }].0 == extent.max_x);
            assert(cells[if by < before.min_y { i as int } else { c }].1 == extent.min_y);
            assert(cells[if by > before.max_y { i as int } else { d }].1 == extent.max_y);
        }
        i += 1;
    }
    extent
}

impl GameState {
    /// The colour that the square in column `x` of row `y` shows.
    pub fn shown_color(&self, x: usize, y: usize) -> (color: Option<Color>)
        requires
            in_grid(x as int, y as int),
            effects_fit(self@.active_squares),
        ensures
            color == shown_color(self@, x as int, y as int),
    {
        match self.board.get(x, y) {
            None => None,
            Some(cell) => {
                let ghost effects = self@.active_squares;
                let mut i: usize = 0;
                while i < self.active_squares.len()
                    invariant
                        i <= self.active_squares.len(),
                        effects == effect_views(self.active_squares@),
                        effects_fit(effects),
                        in_grid(x as int, y as int),
                        at(self@.board, x as int, y as int) == Some(cell),
                        first_covering(effects, x as int, y as int, 0) == first_covering(
                            effects,
                            x as int,
                            y as int,
                            i as nat,
                        ),
                    decreases self.active_squares.len() - i,
                {
                    let eff = &self.active_squares[i];
                    assert(eff@ == effects[i as int]);
                    assert(region_fits(eff@.x, eff@.y));
                    if x >= eff.x && x < eff.x + SQUARE_SIZE && y >= eff.y && y < eff.y + SQUARE_SIZE {
                        if eff.flash_on {
                            return Some(if eff.is_gold {
                                Color::Gold
                            } else {
                                Color::Silver
                            });
                        } else {
                            let shown = eff.original[y - eff.y][x - eff.x].color;
                            assert(shown == eff@.original[y - eff.y][x - eff.x].color);
                            return Some(shown);
                        }
                    }
                    i += 1;
                }
                Some(cell.color)
            },
        }
    }

    /// The falling piece where it would land if it were dropped now.
    pub fn landing_piece(&self) -> (landed: Option<Tetromino>)
        requires
            self.wf(),
        ensures
            piece_view(landed) == (match self@.tetromino {
                Some(p) => Some(landing(self@.board, p)),
                None => None::<PieceView>,
            }),
            landed matches Some(t) ==> t@.wf() && t@.on_field(),
    {
        match self.tetromino {
            Some(start) => {
                let mut t = start;
                let ghost g = self.board@;
                loop
                    invariant
                        g == self.board@,
                        t@.wf(),
                        t@.on_field(),
                        landing(g, t@) == landing(g, start@),
                    ensures
                        landing(g, start@) == t@,
                        t@.wf(),
                        t@.on_field(),
                    decreases GRID_HEIGHT + 2 - t.pos.1,
                {
                    proof {
                        lemma_anchor_near_field(t@);
                    }
                    if self.board.collides(&t.shape, (t.pos.0, t.pos.1 + 1)) {
                        break ;
                    }
                    let ghost before = t@;
                    t.pos.1 = t.pos.1 + 1;
                    proof {
                        assert(t@ =~= before.shifted(0, 1));
                        lemma_placed_on_field(g, t@);
                    }
                }
                Some(t)
            },
            None => None,
        }
    }

    /// Tells whether the rows that wait to be taken out are lit.
    pub fn rows_lit(&self) -> (lit: bool)
        ensures
            lit == rows_lit(self@),
    {
        self.line_clear_timer > 0 && (self.line_clear_timer / FLASH_TIME) % 2 == 0
    }
}

} // verus!

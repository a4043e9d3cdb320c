//! The board: a grid of locked cells, with the collision test, locking,
//! the scan for full rows and their removal.
//!
//! In contracts the board is a `Grid`: twenty rows, top row first, each a
//! sequence of ten optional cells.

use crate::geometry::{
    shape_cells,
    Color,
    PieceView,
    Shape,
    Tetromino,
    TetrominoType,
    GRID_HEIGHT,
    GRID_WIDTH,
};
use vstd::prelude::*;

verus! {

/// What an occupied square of the board holds: the colour and kind of the
/// block and the number of the piece placement it came from. Blocks of a
/// finished bonus square carry the number 0.
#[derive(Clone, Copy, Debug, PartialEq, Eq, Structural)]
pub struct Cell {
    pub color: Color,
    pub t_type: TetrominoType,
    pub id: u32,
}

/// The rows of a board, top row first.
pub type Grid = Seq<Seq<Option<Cell>>>;

/// A grid has `GRID_HEIGHT` rows of `GRID_WIDTH` squares.
pub open spec fn grid_wf(g: Grid) -> bool {
    &&& g.len() == GRID_HEIGHT
    &&& forall|y: int| 0 <= y < GRID_HEIGHT ==> (#[trigger] g[y]).len() == GRID_WIDTH
}

/// True when `(x, y)` is a square of the field.
pub open spec fn in_grid(x: int, y: int) -> bool {
    0 <= x < GRID_WIDTH && 0 <= y < GRID_HEIGHT
}

/// A row without blocks.
pub open spec fn empty_row() -> Seq<Option<Cell>> {
    Seq::new(GRID_WIDTH as nat, |x: int| None)
}

/// A grid without blocks.
pub open spec fn empty_grid() -> Grid {
    Seq::new(GRID_HEIGHT as nat, |y: int| empty_row())
}

/// The board coordinates of the `i`-th cell of a shape anchored at `pos`.
pub open spec fn piece_cell(cells: Seq<(int, int)>, pos: (int, int), i: int) -> (int, int) {
    (pos.0 + cells[i].0, pos.1 + cells[i].1)
}

/// True when a block cannot be at `(x, y)`: the square is off the field or
/// taken.
pub open spec fn blocked(g: Grid, x: int, y: int) -> bool {
    !in_grid(x, y) || g[y][x].is_some()
}

/// True when the `i`-th cell of the shape anchored at `pos` cannot be where
/// it is.
pub open spec fn cell_blocked(g: Grid, cells: Seq<(int, int)>, pos: (int, int), i: int) -> bool {
    blocked(g, piece_cell(cells, pos, i).0, piece_cell(cells, pos, i).1)
}

/// True when some cell of the shape anchored at `pos` is off the field or on
/// a taken square.
pub open spec fn collides(g: Grid, cells: Seq<(int, int)>, pos: (int, int)) -> bool {
    exists|i: int| 0 <= i < cells.len() && #[trigger] cell_blocked(g, cells, pos, i)
}

/// True when one of the first `n` cells of the shape anchored at `pos` is at
/// `(x, y)`.
pub open spec fn covers_upto(cells: Seq<(int, int)>, pos: (int, int), n: int, x: int, y: int) -> bool {
    exists|i: int| 0 <= i < n && i < cells.len() && #[trigger] piece_cell(cells, pos, i) == (x, y)
}

/// True when a cell of the shape anchored at `pos` is at `(x, y)`.
pub open spec fn covers(cells: Seq<(int, int)>, pos: (int, int), x: int, y: int) -> bool {
    covers_upto(cells, pos, cells.len() as int, x, y)
}

/// The grid after the first `n` cells of `piece` were written into it under
/// the number `id`. Cells off the field write nothing.
pub open spec fn locked_upto(g: Grid, piece: PieceView, id: u32, n: int) -> Grid {
    Seq::new(
        GRID_HEIGHT as nat,
        |y: int|
            Seq::new(
                GRID_WIDTH as nat,
                |x: int|
                    if covers_upto(piece.cells, piece.pos, n, x, y) {
                        Some(Cell { color: piece.color, t_type: piece.t_type, id })
                    } else {
                        g[y][x]
                    },
            ),
    )
}

/// The grid after `piece` was written into it under the number `id`: every
/// square under the piece holds the piece's colour, kind and `id`, every
/// other square is as before.
pub open spec fn locked(g: Grid, piece: PieceView, id: u32) -> Grid {
    locked_upto(g, piece, id, piece.cells.len() as int)
}

/// True when every square of row `y` is taken.
pub open spec fn row_full(g: Grid, y: int) -> bool {
    forall|x: int| 0 <= x < GRID_WIDTH ==> (#[trigger] g[y][x]).is_some()
}

/// The full rows among the first `n`, top first.
pub open spec fn full_rows_upto(g: Grid, n: nat) -> Seq<usize>
    decreases n,
{
    if n == 0 {
        Seq::empty()
    } else if row_full(g, n - 1) {
        full_rows_upto(g, (n - 1) as nat).push((n - 1) as usize)
    } else {
        full_rows_upto(g, (n - 1) as nat)
    }
}

/// The full rows of the grid, top first.
pub open spec fn full_rows(g: Grid) -> Seq<usize> {
    full_rows_upto(g, GRID_HEIGHT as nat)
}

/// Those of the first `n` rows that `rows` does not name, in their order.
pub open spec fn survivors_upto(g: Grid, rows: Seq<usize>, n: nat) -> Grid
    decreases n,
{
    if n == 0 {
        Seq::empty()
    } else if rows.contains((n - 1) as usize) {
        survivors_upto(g, rows, (n - 1) as nat)
    } else {
        survivors_upto(g, rows, (n - 1) as nat).push(g[n - 1])
    }
}

/// The grid after the rows that `rows` names were taken out: the rows that
/// stay sink to the bottom in their order, and empty rows fill the top.
pub open spec fn without_rows(g: Grid, rows: Seq<usize>) -> Grid {
    let kept = survivors_upto(g, rows, GRID_HEIGHT as nat);
    Seq::new((GRID_HEIGHT - kept.len()) as nat, |y: int| empty_row()) + kept
}

/// How many of the rows from `from` down to the bottom `rows` names.
pub open spec fn removed_from(rows: Seq<usize>, from: int) -> nat
    decreases GRID_HEIGHT - from,
{
    if from >= GRID_HEIGHT {
        0
    } else if rows.contains(from as usize) {
        1 + removed_from(rows, from + 1)
    } else {
        removed_from(rows, from + 1)
    }
}

/// Row numbers that rise strictly and stay on the field.
pub open spec fn rows_ascending(rows: Seq<usize>) -> bool {
    &&& forall|i: int| 0 <= i < rows.len() ==> (#[trigger] rows[i]) < GRID_HEIGHT
    &&& forall|i: int, j: int| 0 <= i < j < rows.len() ==> rows[i] < rows[j]
}

/// The grid of locked cells.
#[derive(Clone, Copy, Debug)]
pub struct Board {
    pub grid: [[Option<Cell>; GRID_WIDTH]; GRID_HEIGHT],
}

impl View for Board {
    type V = Grid;

    open spec fn view(&self) -> Grid {
        Seq::new(GRID_HEIGHT as nat, |y: int| self.grid[y]@)
    }
}

impl Board {
    /// A board without blocks.
    pub fn new() -> (b: Board)
        ensures
            b@ == empty_grid(),
    {
        let b = Board { grid: [[None; GRID_WIDTH]; GRID_HEIGHT] };
        assert(b@ =~~= empty_grid());
        b
    }

    /// What the square in column `x` of row `y` holds.
    pub fn get(&self, x: usize, y: usize) -> (c: Option<Cell>)
        requires
            in_grid(x as int, y as int),
        ensures
            c == self@[y as int][x as int],
    {
        self.grid[y][x]
    }

    /// Puts `cell` on the square in column `x` of row `y`.
    pub fn set(&mut self, x: usize, y: usize, cell: Option<Cell>)
        requires
            in_grid(x as int, y as int),
        ensures
            final(self)@ == old(self)@.update(y as int, old(self)@[y as int].update(x as int, cell)),
    {
        self.grid[y][x] = cell;
        assert(self@ =~~= old(self)@.update(y as int, old(self)@[y as int].update(x as int, cell)));
    }

    /// Tests whether a shape anchored at `pos` has a cell off the field or on
    /// a taken square. Nothing is changed.
    pub fn collides(&self, shape: &Shape, pos: (i32, i32)) -> (r: bool)
        ensures
            r == collides(self@, shape_cells(*shape), (pos.0 as int, pos.1 as int)),
    {
        let ghost cells = shape_cells(*shape);
        let ghost at = (pos.0 as int, pos.1 as int);
        let mut i: usize = 0;
        while i < 4
            invariant
                i <= 4,
                cells == shape_cells(*shape),
                at == (pos.0 as int, pos.1 as int),
                forall|k: int| 0 <= k < i ==> !#[trigger] cell_blocked(self@, cells, at, k),
            decreases 4 - i,
        {
            let x: i64 = pos.0 as i64 + shape[i][0] as i64;
            let y: i64 = pos.1 as i64 + shape[i][1] as i64;
            assert(piece_cell(cells, at, i as int) == (x as int, y as int));
            if x < 0 || x >= GRID_WIDTH as i64 || y < 0 || y >= GRID_HEIGHT as i64 {
                assert(cell_blocked(self@, cells, at, i as int));
                return true;
            }
            if self.grid[y as usize][x as usize].is_some() {
                assert(cell_blocked(self@, cells, at, i as int));
                return true;
            }
            i += 1;
        }
        false
    }

    /// Writes the four cells of `piece` into the grid under the number `id`.
    /// A cell off the field is passed over.
    pub fn lock(&mut self, piece: &Tetromino, id: u32)
        ensures
            final(self)@ == locked(old(self)@, piece@, id),
    {
        let cell = Cell { color: piece.color, t_type: piece.t_type, id };
        let ghost start = self@;
        let ghost p = piece@;
        let mut i: usize = 0;
        assert(self@ =~~= locked_upto(start, p, id, 0));
        while i < 4
            invariant
                i <= 4,
                p == piece@,
                cell == (Cell { color: p.color, t_type: p.t_type, id }),
                grid_wf(start),
                self@ == locked_upto(start, p, id, i as int),
            decreases 4 - i,
        {
            let x: i64 = piece.pos.0 as i64 + piece.shape[i][0] as i64;
            let y: i64 = piece.pos.1 as i64 + piece.shape[i][1] as i64;
            assert(piece_cell(p.cells, p.pos, i as int) == (x as int, y as int));
            let ghost before = self@;
            if x >= 0 && x < GRID_WIDTH as i64 && y >= 0 && y < GRID_HEIGHT as i64 {
                self.set(x as usize, y as usize, Some(cell));
            }
            assert forall|cy: int, cx: int| 0 <= cy < GRID_HEIGHT && 0 <= cx < GRID_WIDTH implies
                #[trigger] self@[cy][cx] == locked_upto(start, p, id, i + 1)[cy][cx] by {
                assert(before[cy][cx] == locked_upto(start, p, id, i as int)[cy][cx]);
                if covers_upto(p.cells, p.pos, i + 1, cx, cy) {
                    let k = choose|k: int|
                        0 <= k < i + 1 && k < p.cells.len() && #[trigger] piece_cell(
                            p.cells,
                            p.pos,
                            k,
                        ) == (cx, cy);
                    if k < i {
                        assert(covers_upto(p.cells, p.pos, i as int, cx, cy));
                    }
                } else {
                    if covers_upto(p.cells, p.pos, i as int, cx, cy) {
                        let k = choose|k: int|
                            0 <= k < i && k < p.cells.len() && #[trigger] piece_cell(
                                p.cells,
                                p.pos,
                                k,
                            ) == (cx, cy);
                        assert(piece_cell(p.cells, p.pos, k) == (cx, cy));
                    }
                }
            }
            assert(self@ =~~= locked_upto(start, p, id, i + 1));
            i += 1;
        }
    }

    /// Tests whether every square of row `y` is taken.
    pub fn is_row_full(&self, y: usize) -> (r: bool)
        requires
            y < GRID_HEIGHT,
        ensures
            r == row_full(self@, y as int),
    {
        let mut x: usize = 0;
        while x < GRID_WIDTH
            invariant
                x <= GRID_WIDTH,
                y < GRID_HEIGHT,
                forall|k: int| 0 <= k < x ==> (#[trigger] self@[y as int][k]).is_some(),
            decreases GRID_WIDTH - x,
        {
            if self.grid[y][x].is_none() {
                assert(self@[y as int][x as int].is_none());
                return false;
            }
            x += 1;
        }
        true
    }

    /// The numbers of the rows in which every square is taken, top first.
    pub fn scan_full_rows(&self) -> (rows: Vec<usize>)
        ensures
            rows@ == full_rows(self@),
            rows_ascending(rows@),
            forall|y: int| 0 <= y < GRID_HEIGHT ==> (rows@.contains(y as usize) <==> row_full(self@, y)),
    {
        let mut rows: Vec<usize> = Vec::new();
        let mut y: usize = 0;
        while y < GRID_HEIGHT
            invariant
                y <= GRID_HEIGHT,
                rows@ == full_rows_upto(self@, y as nat),
            decreases GRID_HEIGHT - y,
        {
            if self.is_row_full(y) {
                rows.push(y);
            }
            y += 1;
        }
        proof {
            lemma_full_rows(self@, GRID_HEIGHT as nat);
        }
        rows
    }

    /// Takes out the rows that `rows` names. The rows that stay sink to the
    /// bottom in their order; empty rows fill the top.
    pub fn remove_rows(&mut self, rows: &Vec<usize>)
        ensures
            final(self)@ == without_rows(old(self)@, rows@),
    {
        let ghost start = self@;
        let mut kept: Vec<[Option<Cell>; GRID_WIDTH]> = Vec::new();
        let mut y: usize = 0;
        while y < GRID_HEIGHT
            invariant
                y <= GRID_HEIGHT,
                start == self@,
                kept@.len() <= y,
                kept@.len() == survivors_upto(start, rows@, y as nat).len(),
                forall|k: int|
                    0 <= k < kept@.len() ==> (#[trigger] kept@[k])@ == survivors_upto(
                        start,
                        rows@,
                        y as nat,
                    )[k],
            decreases GRID_HEIGHT - y,
        {
            if !row_listed(rows, y) {
                kept.push(self.grid[y]);
            }
            y += 1;
        }
        let gap: usize = GRID_HEIGHT - kept.len();
        let mut grid: [[Option<Cell>; GRID_WIDTH]; GRID_HEIGHT] = [[None; GRID_WIDTH]; GRID_HEIGHT];
        let mut j: usize = gap;
        while j < GRID_HEIGHT
            invariant
                gap <= j <= GRID_HEIGHT,
                gap + kept@.len() == GRID_HEIGHT,
                forall|k: int| 0 <= k < gap ==> (#[trigger] grid[k])@ == empty_row(),
                forall|k: int| gap <= k < j ==> (#[trigger] grid[k])@ == kept@[k - gap]@,
            decreases GRID_HEIGHT - j,
        {
            grid[j] = kept[j - gap];
            j += 1;
        }
        self.grid = grid;
        assert(self@ =~= without_rows(start, rows@));
    }
}

/// Tests whether `rows` names row `y`.
pub fn row_listed(rows: &Vec<usize>, y: usize) -> (r: bool)
    ensures
        r == rows@.contains(y),
{
    let mut i: usize = 0;
    while i < rows.len()
        invariant
            i <= rows.len(),
            forall|k: int| 0 <= k < i ==> rows@[k] != y,
        decreases rows.len() - i,
    {
        if rows[i] == y {
            return true;
        }
        i += 1;
    }
    false
}

/// The scan for full rows names exactly the full rows among the first `n`,
/// each once and in rising order.
pub proof fn lemma_full_rows(g: Grid, n: nat)
    requires
        n <= GRID_HEIGHT,
    ensures
        rows_ascending(full_rows_upto(g, n)),
        forall|i: int| 0 <= i < full_rows_upto(g, n).len() ==> (#[trigger] full_rows_upto(g, n)[i]) < n,
        forall|y: int|
            0 <= y < GRID_HEIGHT ==> (full_rows_upto(g, n).contains(y as usize) <==> y < n && row_full(
                g,
                y,
            )),
    decreases n,
{
    if n > 0 {
        let prev = full_rows_upto(g, (n - 1) as nat);
        lemma_full_rows(g, (n - 1) as nat);
        let now = full_rows_upto(g, n);
        assert forall|y: int| 0 <= y < GRID_HEIGHT implies (now.contains(y as usize) <==> y < n
            && row_full(g, y)) by {
            if row_full(g, n - 1) {
                assert(now == prev.push((n - 1) as usize));
                if now.contains(y as usize) {
                    let i = choose|i: int| 0 <= i < now.len() && now[i] == y as usize;
                    if i < prev.len() {
                        assert(prev[i] == y as usize);
                        assert(prev.contains(y as usize));
                    }
                }
                if y < n && row_full(g, y) {
                    if y == n - 1 {
                        assert(now[now.len() - 1] == y as usize);
                    } else {
                        assert(prev.contains(y as usize));
                        let i = choose|i: int| 0 <= i < prev.len() && prev[i] == y as usize;
                        assert(now[i] == y as usize);
                    }
                }
            }
        }
    }
}

/// After a piece was locked, every square under the piece holds the piece's
/// colour, kind and number, and every other square holds what it held.
pub proof fn lemma_locked_squares(g: Grid, piece: PieceView, id: u32)
    requires
        grid_wf(g),
    ensures
        grid_wf(locked(g, piece, id)),
        forall|x: int, y: int|
            in_grid(x, y) ==> (#[trigger] locked(g, piece, id)[y][x]) == (if covers(
                piece.cells,
                piece.pos,
                x,
                y,
            ) {
                Some(Cell { color: piece.color, t_type: piece.t_type, id })
            } else {
                g[y][x]
            }),
{
}

/// Row numbers that rise strictly are counted once each: as many rows are
/// taken out as the list names.
pub proof fn lemma_ascending_rows_are_counted(rows: Seq<usize>)
    requires
        rows_ascending(rows),
    ensures
        removed_from(rows, 0) == rows.len(),
{
    let k = lemma_ascending_rows_from(rows, 0);
    if k > 0 {
        assert(rows[0] < 0);
    }
}

/// Of row numbers that rise strictly, those from `from` on are the last
/// ones of the list, and they are counted once each.
proof fn lemma_ascending_rows_from(rows: Seq<usize>, from: int) -> (k: int)
    requires
        rows_ascending(rows),
        0 <= from <= GRID_HEIGHT,
    ensures
        0 <= k <= rows.len(),
        forall|i: int| 0 <= i < k ==> (#[trigger] rows[i]) < from,
        forall|i: int| k <= i < rows.len() ==> (#[trigger] rows[i]) >= from,
        removed_from(rows, from) == rows.len() - k,
    decreases GRID_HEIGHT - from,
{
    if from >= GRID_HEIGHT {
        rows.len() as int
    } else {
        let above = lemma_ascending_rows_from(rows, from + 1);
        if rows.contains(from as usize) {
            let i = choose|i: int| 0 <= i < rows.len() && rows[i] == from as usize;
            assert(i < above);
            if i < above - 1 {
                assert(rows[i] < rows[above - 1]);
            }
            above - 1
        } else {
            assert forall|i: int| 0 <= i < above implies (#[trigger] rows[i]) < from by {
                if rows[i] == from {
                    assert(rows.contains(from as usize));
                }
            }
            above
        }
    }
}

/// Row numbers that rise strictly are no more than there are rows.
pub proof fn lemma_ascending_rows_are_few(rows: Seq<usize>)
    requires
        rows_ascending(rows),
    ensures
        rows.len() <= GRID_HEIGHT,
{
    if rows.len() > 0 {
        lemma_ascending_rows_grow(rows, rows.len() - 1);
    }
}

/// Of row numbers that rise strictly, the `i`-th is at least `i`.
proof fn lemma_ascending_rows_grow(rows: Seq<usize>, i: int)
    requires
        rows_ascending(rows),
        0 <= i < rows.len(),
    ensures
        rows[i] >= i,
    decreases i,
{
    if i > 0 {
        lemma_ascending_rows_grow(rows, i - 1);
    }
}

/// A shape with a cell off the field collides, whatever the board holds.
pub proof fn lemma_off_field_collides(g: Grid, cells: Seq<(int, int)>, pos: (int, int), i: int)
    requires
        0 <= i < cells.len(),
        !in_grid(piece_cell(cells, pos, i).0, piece_cell(cells, pos, i).1),
    ensures
        collides(g, cells, pos),
{
    assert(cell_blocked(g, cells, pos, i));
}

/// A shape that does not collide has every cell on the field and on a free
/// square.
pub proof fn lemma_free_when_no_collision(g: Grid, cells: Seq<(int, int)>, pos: (int, int))
    requires
        !collides(g, cells, pos),
    ensures
        forall|i: int|
            0 <= i < cells.len() ==> {
                &&& in_grid((#[trigger] piece_cell(cells, pos, i)).0, piece_cell(cells, pos, i).1)
                &&& g[piece_cell(cells, pos, i).1][piece_cell(cells, pos, i).0].is_none()
            },
{
    assert forall|i: int| 0 <= i < cells.len() implies {
        &&& in_grid((#[trigger] piece_cell(cells, pos, i)).0, piece_cell(cells, pos, i).1)
        &&& g[piece_cell(cells, pos, i).1][piece_cell(cells, pos, i).0].is_none()
    } by {
        assert(!cell_blocked(g, cells, pos, i));
    }
}

/// Taking rows out leaves a grid of the same size.
pub proof fn lemma_without_rows_wf(g: Grid, rows: Seq<usize>)
    requires
        grid_wf(g),
    ensures
        grid_wf(without_rows(g, rows)),
{
    lemma_survivors(g, rows, GRID_HEIGHT as nat);
    let kept = survivors_upto(g, rows, GRID_HEIGHT as nat);
    let out = without_rows(g, rows);
    assert forall|y: int| 0 <= y < GRID_HEIGHT implies (#[trigger] out[y]).len() == GRID_WIDTH by {
        if y >= GRID_HEIGHT - kept.len() {
            assert(out[y] == kept[y - (GRID_HEIGHT - kept.len())]);
        }
    }
}

/// Every row of the grid that is left when rows are taken out is an empty
/// row or a row of the grid before.
pub proof fn lemma_without_rows_origin(g: Grid, rows: Seq<usize>)
    requires
        grid_wf(g),
    ensures
        forall|k: int|
            0 <= k < GRID_HEIGHT ==> {
                ||| (#[trigger] without_rows(g, rows)[k]) == empty_row()
                ||| exists|y: int| 0 <= y < GRID_HEIGHT && without_rows(g, rows)[k] == #[trigger] g[y]
            },
{
    lemma_survivors_origin(g, rows, GRID_HEIGHT as nat);
    lemma_survivors(g, rows, GRID_HEIGHT as nat);
    let kept = survivors_upto(g, rows, GRID_HEIGHT as nat);
    let out = without_rows(g, rows);
    assert forall|k: int| 0 <= k < GRID_HEIGHT implies {
        ||| (#[trigger] out[k]) == empty_row()
        ||| exists|y: int| 0 <= y < GRID_HEIGHT && out[k] == #[trigger] g[y]
    } by {
        let gap = GRID_HEIGHT - kept.len();
        if k >= gap {
            assert(out[k] == kept[k - gap]);
        }
    }
}

/// Every row that stays of the first `n` is one of them.
proof fn lemma_survivors_origin(g: Grid, rows: Seq<usize>, n: nat)
    requires
        n <= GRID_HEIGHT,
    ensures
        forall|k: int|
            0 <= k < survivors_upto(g, rows, n).len() ==> exists|y: int|
                0 <= y < n && (#[trigger] survivors_upto(g, rows, n)[k]) == #[trigger] g[y],
    decreases n,
{
    if n > 0 {
        lemma_survivors_origin(g, rows, (n - 1) as nat);
        let prev = survivors_upto(g, rows, (n - 1) as nat);
        let now = survivors_upto(g, rows, n);
        assert forall|k: int| 0 <= k < now.len() implies exists|y: int|
            0 <= y < n && (#[trigger] now[k]) == #[trigger] g[y] by {
            if k < prev.len() {
                let y = choose|y: int| 0 <= y < n - 1 && prev[k] == #[trigger] g[y];
                assert(now[k] == g[y]);
            } else {
                assert(now[k] == g[n - 1]);
            }
        }
    }
}

/// How many rows above row `y` stay.
pub open spec fn kept_before(rows: Seq<usize>, y: int) -> int {
    y - (removed_from(rows, 0) - removed_from(rows, y))
}

/// Among the first `n` rows, a row that stays is found, unchanged, as many
/// places from the end of the survivors as rows stay below it.
proof fn lemma_survivors(g: Grid, rows: Seq<usize>, n: nat)
    requires
        grid_wf(g),
        n <= GRID_HEIGHT,
    ensures
        survivors_upto(g, rows, n).len() + removed_from(rows, 0) == n + removed_from(rows, n as int),
        forall|k: int|
            0 <= k < survivors_upto(g, rows, n).len() ==> (#[trigger] survivors_upto(g, rows, n)[k]).len()
                == GRID_WIDTH,
        forall|y: int|
            0 <= y < n && !rows.contains(y as usize) ==> {
                &&& 0 <= #[trigger] kept_before(rows, y) < survivors_upto(g, rows, n).len()
                &&& survivors_upto(g, rows, n)[kept_before(rows, y)] == g[y]
            },
    decreases n,
{
    if n > 0 {
        lemma_survivors(g, rows, (n - 1) as nat);
        let prev = survivors_upto(g, rows, (n - 1) as nat);
        let now = survivors_upto(g, rows, n);
        assert(removed_from(rows, n - 1) == removed_from(rows, n as int) + (if rows.contains(
            (n - 1) as usize,
        ) {
            1nat
        } else {
            0nat
        }));
        assert forall|y: int| 0 <= y < n && !rows.contains(y as usize) implies {
            &&& 0 <= #[trigger] kept_before(rows, y) < now.len()
            &&& now[kept_before(rows, y)] == g[y]
        } by {
            let k = kept_before(rows, y);
            if y < n - 1 {
                assert(0 <= k < prev.len() && prev[k] == g[y]);
                assert(now[k] == prev[k]);
            } else {
                assert(now == prev.push(g[n - 1]));
                assert(k == prev.len());
            }
        }
    }
}

/// Where a row that stays goes: down by the number of removed rows below it.
pub open spec fn row_after_removal(rows: Seq<usize>, y: int) -> int {
    y + removed_from(rows, y + 1)
}

/// Taking rows out keeps the number of rows, keeps every row that stays
/// unchanged and in the order it had, and leaves as many empty rows at the
/// top as rows were taken out.
pub proof fn lemma_remove_rows_keeps_order(g: Grid, rows: Seq<usize>)
    requires
        grid_wf(g),
    ensures
        without_rows(g, rows).len() == GRID_HEIGHT,
        forall|y: int|
            0 <= y < removed_from(rows, 0) ==> (#[trigger] without_rows(g, rows)[y]) == empty_row(),
        forall|y: int|
            0 <= y < GRID_HEIGHT && !rows.contains(y as usize) ==> {
                &&& removed_from(rows, 0) <= #[trigger] row_after_removal(rows, y) < GRID_HEIGHT
                &&& without_rows(g, rows)[row_after_removal(rows, y)] == g[y]
            },
        forall|y1: int, y2: int|
            0 <= y1 < y2 < GRID_HEIGHT && !rows.contains(y1 as usize) && !rows.contains(y2 as usize)
                ==> #[trigger] row_after_removal(rows, y1) < #[trigger] row_after_removal(rows, y2),
{
    lemma_survivors(g, rows, GRID_HEIGHT as nat);
    let kept = survivors_upto(g, rows, GRID_HEIGHT as nat);
    let out = without_rows(g, rows);
    let gap = removed_from(rows, 0);
    assert(removed_from(rows, GRID_HEIGHT as int) == 0);
    assert(kept.len() + gap == GRID_HEIGHT);
    assert forall|y: int| 0 <= y < GRID_HEIGHT && !rows.contains(y as usize) implies {
        &&& gap <= #[trigger] row_after_removal(rows, y) < GRID_HEIGHT
        &&& out[row_after_removal(rows, y)] == g[y]
    } by {
        let k = kept_before(rows, y);
        assert(kept[k] == g[y]);
        assert(removed_from(rows, y) == removed_from(rows, y + 1));
        assert(out[gap + k] == kept[k]);
    }
    assert forall|y1: int, y2: int|
        0 <= y1 < y2 < GRID_HEIGHT && !rows.contains(y1 as usize) && !rows.contains(
            y2 as usize,
        ) implies #[trigger] row_after_removal(rows, y1) < #[trigger] row_after_removal(rows, y2) by {
        lemma_removed_between(rows, y1 + 1, y2 + 1);
    }
}

/// Between two rows no more rows are named than there are.
proof fn lemma_removed_between(rows: Seq<usize>, a: int, b: int)
    requires
        0 <= a <= b <= GRID_HEIGHT,
    ensures
        removed_from(rows, b) <= removed_from(rows, a) <= removed_from(rows, b) + (b - a),
        a < b && !rows.contains((b - 1) as usize) ==> removed_from(rows, a) < removed_from(rows, b) + (b
            - a),
    decreases b - a,
{
    if a < b {
        lemma_removed_between(rows, a + 1, b);
        if a + 1 == b {
            assert(removed_from(rows, a) == removed_from(rows, b) + (if rows.contains(a as usize) {
                1nat
            } else {
                0nat
            }));
        }
    }
}

} // verus!

//! Tetromino geometry: the seven shapes, their pivots and the quarter turn.
//!
//! A shape is four integer offsets from an anchor. In contracts a shape is
//! seen as a `Seq<(int, int)>`, so that turning it never overflows and laws
//! about turns are laws of plain integer arithmetic.

use vstd::prelude::*;

verus! {

/// Number of columns of the playing field.
pub const GRID_WIDTH: usize = 10;

/// Number of rows of the playing field; row 0 is the top row.
pub const GRID_HEIGHT: usize = 20;

/// Column of the anchor of a piece that enters the field.
pub const SPAWN_X: i32 = 3;

/// Row of the anchor of a piece that enters the field.
pub const SPAWN_Y: i32 = 0;

/// The kind of a block: one of the seven pieces, or one of the two markers
/// that a finished bonus square leaves behind.
#[derive(Clone, Copy, Debug, PartialEq, Eq, Hash, Structural)]
pub enum TetrominoType {
    I,
    O,
    T,
    S,
    Z,
    J,
    L,
    BonusGold,
    BonusSilver,
}

/// The colours a block can have. The presentation layer decides how each one
/// is drawn.
#[derive(Clone, Copy, Debug, PartialEq, Eq, Hash, Structural)]
pub enum Color {
    Cyan,
    Yellow,
    Purple,
    Green,
    Red,
    Blue,
    Orange,
    Gold,
    Silver,
}

/// Four offsets `[x, y]` from the anchor of a piece.
pub type Shape = [[i32; 2]; 4];

/// The offsets of a shape as mathematical pairs.
pub open spec fn shape_cells(shape: Shape) -> Seq<(int, int)> {
    Seq::new(4, |i: int| (shape[i][0] as int, shape[i][1] as int))
}

impl TetrominoType {
    /// True for the seven kinds that fall as pieces.
    pub open spec fn is_standard(self) -> bool {
        !(self is BonusGold) && !(self is BonusSilver)
    }

    /// Position of the kind in the order I, O, T, S, Z, J, L, gold, silver.
    pub open spec fn slot(self) -> int {
        match self {
            TetrominoType::I => 0,
            TetrominoType::O => 1,
            TetrominoType::T => 2,
            TetrominoType::S => 3,
            TetrominoType::Z => 4,
            TetrominoType::J => 5,
            TetrominoType::L => 6,
            TetrominoType::BonusGold => 7,
            TetrominoType::BonusSilver => 8,
        }
    }

    /// The kind that a draw `n` stands for: 0 to 5 pick I, O, T, S, Z, J and
    /// every other number picks L.
    pub open spec fn spec_from_index(n: int) -> TetrominoType {
        if n == 0 {
            TetrominoType::I
        } else if n == 1 {
            TetrominoType::O
        } else if n == 2 {
            TetrominoType::T
        } else if n == 3 {
            TetrominoType::S
        } else if n == 4 {
            TetrominoType::Z
        } else if n == 5 {
            TetrominoType::J
        } else {
            TetrominoType::L
        }
    }

    /// The unturned offsets of a piece of this kind. The two bonus kinds
    /// never fall; what is given for them is of no account.
    pub open spec fn canonical_cells(self) -> Seq<(int, int)> {
        match self {
            TetrominoType::I => seq![(0int, 0int), (1int, 0int), (2int, 0int), (3int, 0int)],
            TetrominoType::O => seq![(0int, 0int), (1int, 0int), (0int, 1int), (1int, 1int)],
            TetrominoType::T => seq![(1int, 0int), (0int, 1int), (1int, 1int), (2int, 1int)],
            TetrominoType::S => seq![(1int, 0int), (2int, 0int), (0int, 1int), (1int, 1int)],
            TetrominoType::Z => seq![(0int, 0int), (1int, 0int), (1int, 1int), (2int, 1int)],
            TetrominoType::J => seq![(0int, 0int), (0int, 1int), (1int, 1int), (2int, 1int)],
            _ => seq![(0int, 0int), (1int, 0int), (2int, 0int), (0int, 1int)],
        }
    }

    /// The point, relative to the anchor, about which a piece of this kind
    /// turns. It need not be one of the piece's own cells. The two bonus
    /// kinds never turn; what is given for them is of no account.
    pub open spec fn pivot(self) -> (int, int) {
        match self {
            TetrominoType::I => (1, 0),
            TetrominoType::O => (0, 0),
            _ => (1, 1),
        }
    }

    /// The colour in which a piece of this kind is locked.
    pub open spec fn spec_color(self) -> Color {
        match self {
            TetrominoType::I => Color::Cyan,
            TetrominoType::O => Color::Yellow,
            TetrominoType::T => Color::Purple,
            TetrominoType::S => Color::Green,
            TetrominoType::Z => Color::Red,
            TetrominoType::J => Color::Blue,
            TetrominoType::L => Color::Orange,
            TetrominoType::BonusGold => Color::Gold,
            TetrominoType::BonusSilver => Color::Silver,
        }
    }

    /// Tells whether the kind is one of the two markers of a finished bonus
    /// square, and so none of the seven pieces.
    pub fn is_bonus(self) -> (r: bool)
        ensures
            r == !self.is_standard(),
    {
        match self {
            TetrominoType::BonusGold => true,
            TetrominoType::BonusSilver => true,
            _ => false,
        }
    }

    /// Position of the kind in the order I, O, T, S, Z, J, L, gold, silver.
    pub fn index(self) -> (r: usize)
        ensures
            r == self.slot(),
            r < 9,
            self.is_standard() <==> r < 7,
    {
        match self {
            TetrominoType::I => 0,
            TetrominoType::O => 1,
            TetrominoType::T => 2,
            TetrominoType::S => 3,
            TetrominoType::Z => 4,
            TetrominoType::J => 5,
            TetrominoType::L => 6,
            TetrominoType::BonusGold => 7,
            TetrominoType::BonusSilver => 8,
        }
    }

    /// The kind that a draw `n` stands for: 0 to 5 pick I, O, T, S, Z, J and
    /// every other number picks L.
    pub fn from_index(n: i32) -> (r: TetrominoType)
        ensures
            r == Self::spec_from_index(n as int),
            r.is_standard(),
    {
        match n {
            0 => TetrominoType::I,
            1 => TetrominoType::O,
            2 => TetrominoType::T,
            3 => TetrominoType::S,
            4 => TetrominoType::Z,
            5 => TetrominoType::J,
            _ => TetrominoType::L,
        }
    }

    /// The colour in which a piece of this kind is locked.
    pub fn color(self) -> (r: Color)
        ensures
            r == self.spec_color(),
    {
        match self {
            TetrominoType::I => Color::Cyan,
            TetrominoType::O => Color::Yellow,
            TetrominoType::T => Color::Purple,
            TetrominoType::S => Color::Green,
            TetrominoType::Z => Color::Red,
            TetrominoType::J => Color::Blue,
            TetrominoType::L => Color::Orange,
            TetrominoType::BonusGold => Color::Gold,
            TetrominoType::BonusSilver => Color::Silver,
        }
    }

    /// The unturned shape of a piece of this kind.
    pub fn canonical_shape(self) -> (r: Shape)
        requires
            self.is_standard(),
        ensures
            shape_cells(r) == self.canonical_cells(),
    {
        let r: Shape = match self {
            TetrominoType::I => [[0, 0], [1, 0], [2, 0], [3, 0]],
            TetrominoType::O => [[0, 0], [1, 0], [0, 1], [1, 1]],
            TetrominoType::T => [[1, 0], [0, 1], [1, 1], [2, 1]],
            TetrominoType::S => [[1, 0], [2, 0], [0, 1], [1, 1]],
            TetrominoType::Z => [[0, 0], [1, 0], [1, 1], [2, 1]],
            TetrominoType::J => [[0, 0], [0, 1], [1, 1], [2, 1]],
            _ => [[0, 0], [1, 0], [2, 0], [0, 1]],
        };
        assert(shape_cells(r) =~= self.canonical_cells());
        r
    }

    /// The pivot of a piece of this kind, as `[x, y]`.
    pub fn rotation_offset(self) -> (r: [i32; 2])
        requires
            self.is_standard(),
        ensures
            (r[0] as int, r[1] as int) == self.pivot(),
    {
        match self {
            TetrominoType::I => [1, 0],
            TetrominoType::O => [0, 0],
            _ => [1, 1],
        }
    }
}

/// A quarter turn of one offset about `pivot`: clockwise sends the offset
/// `(x, y)` from the pivot to `(y, -x)`, counter-clockwise to `(-y, x)`.
pub open spec fn rotate_cell(cell: (int, int), pivot: (int, int), clockwise: bool) -> (int, int) {
    let rel_x = cell.0 - pivot.0;
    let rel_y = cell.1 - pivot.1;
    if clockwise {
        (pivot.0 + rel_y, pivot.1 - rel_x)
    } else {
        (pivot.0 - rel_y, pivot.1 + rel_x)
    }
}

/// A quarter turn of every offset of a shape about the pivot of `t_type`.
pub open spec fn rotate_cells(cells: Seq<(int, int)>, t_type: TetrominoType, clockwise: bool) -> Seq<
    (int, int),
> {
    Seq::new(cells.len(), |i: int| rotate_cell(cells[i], t_type.pivot(), clockwise))
}

/// `cells` after `turns` clockwise quarter turns.
pub open spec fn turned(cells: Seq<(int, int)>, t_type: TetrominoType, turns: nat) -> Seq<(int, int)>
    decreases turns,
{
    if turns == 0 {
        cells
    } else {
        rotate_cells(turned(cells, t_type, (turns - 1) as nat), t_type, true)
    }
}

/// True when `cells` is the shape of `t_type` after some number of quarter
/// turns.
pub open spec fn is_orientation(cells: Seq<(int, int)>, t_type: TetrominoType) -> bool {
    exists|turns: nat| turns < 4 && cells == #[trigger] turned(t_type.canonical_cells(), t_type, turns)
}

/// True when every offset lies within `reach` of the pivot, in both
/// directions.
pub open spec fn within_reach(cells: Seq<(int, int)>, t_type: TetrominoType, reach: int) -> bool {
    forall|i: int|
        0 <= i < cells.len() ==> {
            &&& -reach <= (#[trigger] cells[i]).0 - t_type.pivot().0 <= reach
            &&& -reach <= cells[i].1 - t_type.pivot().1 <= reach
        }
}

/// True when the turned offsets can be stored as `i32`.
pub open spec fn rotation_fits(cells: Seq<(int, int)>, t_type: TetrominoType, clockwise: bool) -> bool {
    forall|i: int|
        0 <= i < cells.len() ==> {
            &&& i32::MIN <= (#[trigger] rotate_cells(cells, t_type, clockwise)[i]).0 <= i32::MAX
            &&& i32::MIN <= rotate_cells(cells, t_type, clockwise)[i].1 <= i32::MAX
        }
}

/// Turns a shape by a quarter about the pivot of its kind. There is no
/// adjustment of the position: whether the turned shape fits on the board is
/// for the caller to test.
pub fn rotate_shape(shape: &Shape, t_type: TetrominoType, clockwise: bool) -> (r: Shape)
    requires
        t_type.is_standard(),
        rotation_fits(shape_cells(*shape), t_type, clockwise),
    ensures
        shape_cells(r) == rotate_cells(shape_cells(*shape), t_type, clockwise),
{
    let pivot = t_type.rotation_offset();
    let pivot_x: i64 = pivot[0] as i64;
    let pivot_y: i64 = pivot[1] as i64;
    let mut new_shape: Shape = [[0; 2]; 4];
    let ghost want = rotate_cells(shape_cells(*shape), t_type, clockwise);
    let mut i: usize = 0;
    while i < 4
        invariant
            i <= 4,
            pivot_x == t_type.pivot().0,
            pivot_y == t_type.pivot().1,
            want == rotate_cells(shape_cells(*shape), t_type, clockwise),
            rotation_fits(shape_cells(*shape), t_type, clockwise),
            forall|k: int| 0 <= k < i ==> (#[trigger] shape_cells(new_shape)[k]) == want[k],
        decreases 4 - i,
    {
        let x: i64 = shape[i][0] as i64;
        let y: i64 = shape[i][1] as i64;
        let rel_x: i64 = x - pivot_x;
        let rel_y: i64 = y - pivot_y;
        assert(shape_cells(*shape)[i as int] == (x as int, y as int));
        assert(want[i as int] == rotate_cell((x as int, y as int), t_type.pivot(), clockwise));
        let (nx, ny): (i64, i64) = if clockwise {
            (pivot_x + rel_y, pivot_y - rel_x)
        } else {
            (pivot_x - rel_y, pivot_y + rel_x)
        };
        let ghost before = new_shape;
        new_shape[i] = [nx as i32, ny as i32];
        assert forall|k: int| 0 <= k < i + 1 implies (#[trigger] shape_cells(new_shape)[k])
            == want[k] by {
            if k < i {
                assert(shape_cells(before)[k] == want[k]);
            }
        }
        i += 1;
    }
    assert(shape_cells(new_shape) =~= want);
    new_shape
}

/// A clockwise quarter turn followed by a counter-clockwise one, or the other
/// way round, gives the shape back.
pub proof fn lemma_rotate_there_and_back(cells: Seq<(int, int)>, t_type: TetrominoType, clockwise: bool)
    ensures
        rotate_cells(rotate_cells(cells, t_type, clockwise), t_type, !clockwise) == cells,
{
    assert(rotate_cells(rotate_cells(cells, t_type, clockwise), t_type, !clockwise) =~= cells);
}

/// Four clockwise quarter turns give the shape back.
pub proof fn lemma_four_turns(cells: Seq<(int, int)>, t_type: TetrominoType)
    ensures
        turned(cells, t_type, 4) == cells,
{
    reveal_with_fuel(turned, 5);
    assert(turned(cells, t_type, 4) =~= cells);
}

/// A quarter turn in either direction keeps every offset as far from the
/// pivot as it was.
pub proof fn lemma_rotate_keeps_reach(
    cells: Seq<(int, int)>,
    t_type: TetrominoType,
    clockwise: bool,
    reach: int,
)
    requires
        within_reach(cells, t_type, reach),
    ensures
        within_reach(rotate_cells(cells, t_type, clockwise), t_type, reach),
{
    let turned_cells = rotate_cells(cells, t_type, clockwise);
    assert forall|i: int| 0 <= i < turned_cells.len() implies {
        &&& -reach <= (#[trigger] turned_cells[i]).0 - t_type.pivot().0 <= reach
        &&& -reach <= turned_cells[i].1 - t_type.pivot().1 <= reach
    } by {
        assert(-reach <= cells[i].0 - t_type.pivot().0 <= reach);
    }
}

/// Every orientation of a piece has four offsets, none further than two
/// from the pivot.
pub proof fn lemma_orientation_reach(cells: Seq<(int, int)>, t_type: TetrominoType)
    requires
        t_type.is_standard(),
        is_orientation(cells, t_type),
    ensures
        cells.len() == 4,
        within_reach(cells, t_type, 2),
        forall|i: int| 0 <= i < 4 ==> -2 <= (#[trigger] cells[i]).0 <= 3 && -2 <= cells[i].1 <= 3,
{
    let turns = choose|turns: nat|
        turns < 4 && cells == #[trigger] turned(t_type.canonical_cells(), t_type, turns);
    lemma_turned_reach(t_type, turns);
    assert forall|i: int| 0 <= i < 4 implies -2 <= (#[trigger] cells[i]).0 <= 3 && -2
        <= cells[i].1 <= 3 by {
        assert(-2 <= cells[i].0 - t_type.pivot().0 <= 2);
    }
}

/// However often the unturned shape is turned, it has four offsets, none
/// further than two from the pivot.
proof fn lemma_turned_reach(t_type: TetrominoType, turns: nat)
    requires
        t_type.is_standard(),
    ensures
        turned(t_type.canonical_cells(), t_type, turns).len() == 4,
        within_reach(turned(t_type.canonical_cells(), t_type, turns), t_type, 2),
    decreases turns,
{
    if turns > 0 {
        lemma_turned_reach(t_type, (turns - 1) as nat);
        lemma_rotate_keeps_reach(
            turned(t_type.canonical_cells(), t_type, (turns - 1) as nat),
            t_type,
            true,
            2,
        );
    }
}

/// A quarter turn of an orientation, in either direction, is an orientation
/// again.
pub proof fn lemma_rotate_keeps_orientation(
    cells: Seq<(int, int)>,
    t_type: TetrominoType,
    clockwise: bool,
)
    requires
        is_orientation(cells, t_type),
    ensures
        is_orientation(rotate_cells(cells, t_type, clockwise), t_type),
{
    let base = t_type.canonical_cells();
    let turns = choose|turns: nat| turns < 4 && cells == #[trigger] turned(base, t_type, turns);
    reveal_with_fuel(turned, 5);
    if clockwise {
        if turns == 3 {
            lemma_four_turns(base, t_type);
            assert(rotate_cells(cells, t_type, true) == turned(base, t_type, 0));
        } else {
            assert(rotate_cells(cells, t_type, true) == turned(base, t_type, (turns + 1) as nat));
        }
    } else {
        if turns == 0 {
            lemma_four_turns(base, t_type);
            lemma_rotate_there_and_back(turned(base, t_type, 3), t_type, true);
            assert(rotate_cells(cells, t_type, false) == turned(base, t_type, 3));
        } else {
            lemma_rotate_there_and_back(turned(base, t_type, (turns - 1) as nat), t_type, true);
            assert(rotate_cells(cells, t_type, false) == turned(base, t_type, (turns - 1) as nat));
        }
    }
}

/// The unturned shape is an orientation.
pub proof fn lemma_canonical_is_orientation(t_type: TetrominoType)
    ensures
        is_orientation(t_type.canonical_cells(), t_type),
{
    assert(t_type.canonical_cells() == turned(t_type.canonical_cells(), t_type, 0));
}

/// A falling piece: a shape, the board position of its anchor, its colour
/// and its kind.
#[derive(Clone, Copy, Debug)]
pub struct Tetromino {
    pub shape: Shape,
    pub pos: (i32, i32),
    pub color: Color,
    pub t_type: TetrominoType,
}

/// What a falling piece is to the rules: its offsets and position as plain
/// integers, its colour and its kind.
pub struct PieceView {
    pub cells: Seq<(int, int)>,
    pub pos: (int, int),
    pub color: Color,
    pub t_type: TetrominoType,
}

impl PieceView {
    /// The piece as it enters the field: unturned, at the spawn position, in
    /// the colour of its kind.
    pub open spec fn fresh(t_type: TetrominoType) -> PieceView {
        PieceView {
            cells: t_type.canonical_cells(),
            pos: (SPAWN_X as int, SPAWN_Y as int),
            color: t_type.spec_color(),
            t_type,
        }
    }

    /// The board coordinates of the `i`-th cell.
    pub open spec fn cell(self, i: int) -> (int, int) {
        (self.pos.0 + self.cells[i].0, self.pos.1 + self.cells[i].1)
    }

    /// The piece moved by `(dx, dy)`.
    pub open spec fn shifted(self, dx: int, dy: int) -> PieceView {
        PieceView { pos: (self.pos.0 + dx, self.pos.1 + dy), ..self }
    }

    /// The piece with other offsets.
    pub open spec fn with_cells(self, cells: Seq<(int, int)>) -> PieceView {
        PieceView { cells, ..self }
    }

    /// The piece turned back to the shape it entered with; the position is
    /// kept.
    pub open spec fn unturned(self) -> PieceView {
        PieceView { cells: self.t_type.canonical_cells(), ..self }
    }

    /// The kind is one of the seven pieces and the offsets are one of its
    /// orientations.
    pub open spec fn wf(self) -> bool {
        &&& self.t_type.is_standard()
        &&& is_orientation(self.cells, self.t_type)
    }

    /// Every cell of the piece lies on the field.
    pub open spec fn on_field(self) -> bool {
        forall|i: int|
            0 <= i < self.cells.len() ==> {
                &&& 0 <= (#[trigger] self.cell(i)).0 < GRID_WIDTH
                &&& 0 <= self.cell(i).1 < GRID_HEIGHT
            }
    }
}

impl View for Tetromino {
    type V = PieceView;

    open spec fn view(&self) -> PieceView {
        PieceView {
            cells: shape_cells(self.shape),
            pos: (self.pos.0 as int, self.pos.1 as int),
            color: self.color,
            t_type: self.t_type,
        }
    }
}

impl Tetromino {
    /// A piece of the given kind as it enters the field.
    pub fn new(t_type: TetrominoType) -> (r: Tetromino)
        requires
            t_type.is_standard(),
        ensures
            r@ == PieceView::fresh(t_type),
            r@.wf(),
            r@.on_field(),
    {
        let r = Tetromino {
            shape: t_type.canonical_shape(),
            pos: (SPAWN_X, SPAWN_Y),
            color: t_type.color(),
            t_type,
        };
        proof {
            lemma_canonical_is_orientation(t_type);
            lemma_fresh_on_field(t_type);
        }
        r
    }
}

/// A piece that enters the field lies on it.
pub proof fn lemma_fresh_on_field(t_type: TetrominoType)
    requires
        t_type.is_standard(),
    ensures
        PieceView::fresh(t_type).wf(),
        PieceView::fresh(t_type).on_field(),
{
    lemma_canonical_is_orientation(t_type);
    let p = PieceView::fresh(t_type);
    assert forall|i: int| 0 <= i < p.cells.len() implies {
        &&& 0 <= (#[trigger] p.cell(i)).0 < GRID_WIDTH
        &&& 0 <= p.cell(i).1 < GRID_HEIGHT
    } by {
        lemma_orientation_reach(p.cells, t_type);
        assert(0 <= p.cells[i].0 <= 3 && 0 <= p.cells[i].1 <= 1);
    }
}

/// The views of an optional piece.
pub open spec fn piece_view(t: Option<Tetromino>) -> Option<PieceView> {
    match t {
        Some(t) => Some(t@),
        None => None,
    }
}

} // verus!

//! Bonus squares: the scan for 4×4 regions that whole pieces fill, and the
//! blinking effect that ends with the region turned into one bonus block.

use crate::board::{grid_wf, in_grid, Board, Cell, Grid};
use crate::geometry::{Color, TetrominoType, GRID_HEIGHT, GRID_WIDTH};
use crate::timing::{count_down, BLINK_PERIOD};
use vstd::prelude::*;

verus! {

/// Side of a bonus square.
pub const SQUARE_SIZE: usize = 4;

/// Number of columns in which a bonus square can start.
pub const SCAN_COLUMNS: usize = 7;

/// Number of rows in which a bonus square can start.
pub const SCAN_ROWS: usize = 17;

/// Number of times a bonus square goes dark before it is converted.
pub const BLINK_COUNT: u32 = 6;

/// Score for a square made of pieces of one kind.
pub const GOLD_POINTS: u32 = 500;

/// Score for a square made of pieces of several kinds.
pub const SILVER_POINTS: u32 = 200;

/// The sixteen cells that a region held when it was found.
pub type Snapshot = [[Cell; SQUARE_SIZE]; SQUARE_SIZE];

/// What square `(x, y)` of the grid holds.
pub open spec fn at(g: Grid, x: int, y: int) -> Option<Cell> {
    g[y][x]
}

/// True when the 4×4 region with top-left square `(x, y)` lies on the field.
pub open spec fn region_fits(x: int, y: int) -> bool {
    0 <= x && x + SQUARE_SIZE <= GRID_WIDTH && 0 <= y && y + SQUARE_SIZE <= GRID_HEIGHT
}

/// True when square `(cx, cy)` lies in the region with top-left `(x, y)`.
pub open spec fn in_region(x: int, y: int, cx: int, cy: int) -> bool {
    x <= cx < x + SQUARE_SIZE && y <= cy < y + SQUARE_SIZE
}

/// The `k`-th square of a region in reading order, as column and row within
/// the region.
pub open spec fn nth(k: int) -> (int, int) {
    (k % (SQUARE_SIZE as int), k / (SQUARE_SIZE as int))
}

/// What the `k`-th square of the region at `(x, y)` holds.
pub open spec fn region_cell(g: Grid, x: int, y: int, k: int) -> Option<Cell> {
    at(g, x + nth(k).0, y + nth(k).1)
}

/// True for what can be part of a new bonus square: a block of one of the
/// seven pieces.
pub open spec fn contributes(c: Option<Cell>) -> bool {
    c matches Some(cell) && cell.t_type.is_standard()
}

/// True when all sixteen squares of the region hold blocks of pieces, none a
/// bonus block.
pub open spec fn region_filled(g: Grid, x: int, y: int) -> bool {
    forall|k: int| 0 <= k < 16 ==> contributes(#[trigger] region_cell(g, x, y, k))
}

/// True when `c` is a block of the placement numbered `id`.
pub open spec fn has_id(c: Option<Cell>, id: u32) -> bool {
    c matches Some(cell) && cell.id == id
}

/// True when the region holds a block of the placement numbered `id`.
pub open spec fn region_has_id(g: Grid, x: int, y: int, id: u32) -> bool {
    exists|k: int| 0 <= k < 16 && has_id(#[trigger] region_cell(g, x, y, k), id)
}

/// True when `c` is a block of a placement that also has a block in the
/// region.
pub open spec fn shares_piece(g: Grid, x: int, y: int, c: Option<Cell>) -> bool {
    c matches Some(cell) && region_has_id(g, x, y, cell.id)
}

/// True when no piece with a block in the region has a block outside it.
pub open spec fn region_contained(g: Grid, x: int, y: int) -> bool {
    forall|cx: int, cy: int|
        in_grid(cx, cy) && shares_piece(g, x, y, #[trigger] at(g, cx, cy)) ==> in_region(x, y, cx, cy)
}

/// True when the region at `(x, y)` is a bonus square: it lies on the field,
/// is filled with blocks of pieces, and every such piece lies wholly in it.
pub open spec fn qualifies(g: Grid, x: int, y: int) -> bool {
    &&& region_fits(x, y)
    &&& region_filled(g, x, y)
    &&& region_contained(g, x, y)
}

/// The sixteen cells of a filled region, row by row.
pub open spec fn region_snapshot(g: Grid, x: int, y: int) -> Seq<Seq<Cell>> {
    Seq::new(
        SQUARE_SIZE as nat,
        |dy: int| Seq::new(SQUARE_SIZE as nat, |dx: int| at(g, x + dx, y + dy).unwrap()),
    )
}

/// The `k`-th cell of a snapshot in reading order.
pub open spec fn snapshot_cell(snap: Seq<Seq<Cell>>, k: int) -> Cell {
    snap[nth(k).1][nth(k).0]
}

/// True when no earlier cell of the snapshot belongs to the placement of
/// the `k`-th.
pub open spec fn first_of_piece(snap: Seq<Seq<Cell>>, k: int) -> bool {
    forall|j: int| 0 <= j < k ==> (#[trigger] snapshot_cell(snap, j)).id != snapshot_cell(snap, k).id
}

/// True when all pieces of the snapshot are of one kind. The kind of a piece
/// is read off its first cell in reading order.
pub open spec fn snapshot_gold(snap: Seq<Seq<Cell>>) -> bool {
    forall|k: int|
        0 <= k < 16 && #[trigger] first_of_piece(snap, k) ==> snapshot_cell(snap, k).t_type
            == snapshot_cell(snap, 0).t_type
}

/// A bonus square that blinks.
#[derive(Clone, Copy, Debug)]
pub struct SquareEffect {
    /// Column of the top-left square of the region.
    pub x: usize,
    /// Row of the top-left square of the region.
    pub y: usize,
    /// Gold when all its pieces are of one kind, silver otherwise.
    pub is_gold: bool,
    /// Time until the next change between lit and dark.
    pub timer: u64,
    /// True while the square is lit.
    pub flash_on: bool,
    /// How many more times the square goes dark before it is converted.
    pub blinks_remaining: u32,
    /// The cells that the region held when the square was found.
    pub original: Snapshot,
}

/// A blinking bonus square, as the rules see it.
pub struct EffectView {
    pub x: int,
    pub y: int,
    pub is_gold: bool,
    pub timer: nat,
    pub flash_on: bool,
    pub blinks_remaining: nat,
    pub original: Seq<Seq<Cell>>,
}

/// The cells of a snapshot, row by row.
pub open spec fn snapshot_view(snap: Snapshot) -> Seq<Seq<Cell>> {
    Seq::new(SQUARE_SIZE as nat, |dy: int| snap[dy]@)
}

impl View for SquareEffect {
    type V = EffectView;

    open spec fn view(&self) -> EffectView {
        EffectView {
            x: self.x as int,
            y: self.y as int,
            is_gold: self.is_gold,
            timer: self.timer as nat,
            flash_on: self.flash_on,
            blinks_remaining: self.blinks_remaining as nat,
            original: snapshot_view(self.original),
        }
    }
}

/// The views of a list of effects.
pub open spec fn effect_views(effects: Seq<SquareEffect>) -> Seq<EffectView> {
    Seq::new(effects.len(), |i: int| effects[i]@)
}

impl EffectView {
    /// The effect that starts when the region at `(x, y)` is found to be a
    /// bonus square: lit, a full blink period ahead, `BLINK_COUNT` blinks to
    /// go.
    pub open spec fn fresh(g: Grid, x: int, y: int) -> EffectView {
        EffectView {
            x,
            y,
            is_gold: snapshot_gold(region_snapshot(g, x, y)),
            timer: BLINK_PERIOD as nat,
            flash_on: true,
            blinks_remaining: BLINK_COUNT as nat,
            original: region_snapshot(g, x, y),
        }
    }

    /// True when letting `dt` pass makes the square go from lit to dark.
    pub open spec fn goes_dark(self, dt: nat) -> bool {
        self.timer <= dt && self.flash_on
    }

    /// The effect after `dt` has passed. When the timer runs out it starts
    /// anew and the square changes between lit and dark; going dark uses up
    /// one blink.
    pub open spec fn stepped(self, dt: nat) -> EffectView {
        if self.timer <= dt {
            EffectView {
                timer: BLINK_PERIOD as nat,
                flash_on: !self.flash_on,
                blinks_remaining: if self.flash_on && self.blinks_remaining > 0 {
                    (self.blinks_remaining - 1) as nat
                } else {
                    self.blinks_remaining
                },
                ..self
            }
        } else {
            EffectView { timer: (self.timer - dt) as nat, ..self }
        }
    }

    /// An effect is over when no blink is left.
    pub open spec fn finished(self) -> bool {
        self.blinks_remaining == 0
    }
}

/// True when an effect of the list has its top-left square at `(x, y)`.
pub open spec fn effect_at(effects: Seq<EffectView>, x: int, y: int) -> bool {
    exists|i: int| 0 <= i < effects.len() && (#[trigger] effects[i]).x == x && effects[i].y == y
}

/// Every effect of the list lies on the field.
pub open spec fn effects_fit(effects: Seq<EffectView>) -> bool {
    forall|i: int| 0 <= i < effects.len() ==> region_fits((#[trigger] effects[i]).x, effects[i].y)
}

/// The top-left square of the `k`-th region of the scan. The scan goes row by
/// row from the top, and from left to right in each row.
pub open spec fn scan_position(k: int) -> (int, int) {
    (k % (SCAN_COLUMNS as int), k / (SCAN_COLUMNS as int))
}

/// The effects that the first `n` regions of the scan start: one for each
/// region that qualifies and has no effect in `active` yet, in the order of
/// the scan.
pub open spec fn detected_upto(g: Grid, active: Seq<EffectView>, n: nat) -> Seq<EffectView>
    decreases n,
{
    if n == 0 {
        Seq::empty()
    } else {
        let earlier = detected_upto(g, active, (n - 1) as nat);
        let (x, y) = scan_position(n - 1);
        if qualifies(g, x, y) && !effect_at(active, x, y) {
            earlier.push(EffectView::fresh(g, x, y))
        } else {
            earlier
        }
    }
}

/// The effects that a scan of the whole board starts.
pub open spec fn detected(g: Grid, active: Seq<EffectView>) -> Seq<EffectView> {
    detected_upto(g, active, (SCAN_COLUMNS * SCAN_ROWS) as nat)
}

/// The block that a finished bonus square is made of.
pub open spec fn bonus_cell(is_gold: bool) -> Cell {
    if is_gold {
        Cell { color: Color::Gold, t_type: TetrominoType::BonusGold, id: 0 }
    } else {
        Cell { color: Color::Silver, t_type: TetrominoType::BonusSilver, id: 0 }
    }
}

/// The score for a finished bonus square.
pub open spec fn bonus_points(is_gold: bool) -> nat {
    if is_gold {
        GOLD_POINTS as nat
    } else {
        SILVER_POINTS as nat
    }
}

/// The grid with the first `n` squares of the region at `(x, y)` turned into
/// bonus blocks.
pub open spec fn converted_upto(g: Grid, x: int, y: int, is_gold: bool, n: int) -> Grid {
    Seq::new(
        GRID_HEIGHT as nat,
        |cy: int|
            Seq::new(
                GRID_WIDTH as nat,
                |cx: int|
                    if in_region(x, y, cx, cy) && (cy - y) * SQUARE_SIZE + (cx - x) < n {
                        Some(bonus_cell(is_gold))
                    } else {
                        g[cy][cx]
                    },
            ),
    )
}

/// The grid with all sixteen squares of the region at `(x, y)` turned into
/// bonus blocks.
pub open spec fn converted(g: Grid, x: int, y: int, is_gold: bool) -> Grid {
    converted_upto(g, x, y, is_gold, 16)
}

/// What letting time pass on a list of effects leads to.
pub struct Outcome {
    /// The board, with the regions of the finished effects converted.
    pub grid: Grid,
    /// The effects that go on, each stepped.
    pub effects: Seq<EffectView>,
    /// The score of the finished effects together.
    pub gained: nat,
}

/// The outcome of letting `dt` pass on the first `n` effects, one after the
/// other: each is stepped; one that is then finished has its region
/// converted, scores and leaves the list.
pub open spec fn advanced_upto(g: Grid, effects: Seq<EffectView>, dt: nat, n: nat) -> Outcome
    decreases n,
{
    if n == 0 {
        Outcome { grid: g, effects: Seq::empty(), gained: 0 }
    } else {
        let earlier = advanced_upto(g, effects, dt, (n - 1) as nat);
        let e = effects[n - 1].stepped(dt);
        if e.finished() {
            Outcome {
                grid: converted(earlier.grid, e.x, e.y, e.is_gold),
                effects: earlier.effects,
                gained: earlier.gained + bonus_points(e.is_gold),
            }
        } else {
            Outcome { grid: earlier.grid, effects: earlier.effects.push(e), gained: earlier.gained }
        }
    }
}

/// The outcome of letting `dt` pass on all effects of the list.
pub open spec fn advanced(g: Grid, effects: Seq<EffectView>, dt: nat) -> Outcome {
    advanced_upto(g, effects, dt, effects.len())
}

/// Takes the snapshot of the region at `(x, y)` if all sixteen squares hold
/// blocks of pieces.
pub fn take_snapshot(board: &Board, x: usize, y: usize) -> (r: Option<Snapshot>)
    requires
        region_fits(x as int, y as int),
    ensures
        r.is_some() == region_filled(board@, x as int, y as int),
        r matches Some(snap) ==> snapshot_view(snap) == region_snapshot(board@, x as int, y as int),
{
    let filler = Cell { color: Color::Cyan, t_type: TetrominoType::I, id: 0 };
    let mut snap: Snapshot = [[filler; SQUARE_SIZE]; SQUARE_SIZE];
    let mut k: usize = 0;
    while k < 16
        invariant
            k <= 16,
            region_fits(x as int, y as int),
            forall|j: int| 0 <= j < k ==> contributes(#[trigger] region_cell(board@, x as int, y as int, j)),
            forall|j: int|
                0 <= j < k ==> Some(#[trigger] snapshot_cell(snapshot_view(snap), j)) == region_cell(
                    board@,
                    x as int,
                    y as int,
                    j,
                ),
        decreases 16 - k,
    {
        let dx: usize = k % SQUARE_SIZE;
        let dy: usize = k / SQUARE_SIZE;
        let ghost before = snapshot_view(snap);
        match board.get(x + dx, y + dy) {
            Some(cell) => {
                if cell.t_type.is_bonus() {
                    assert(!contributes(region_cell(board@, x as int, y as int, k as int)));
                    return None;
                }
                snap[dy][dx] = cell;
            },
            None => {
                assert(!contributes(region_cell(board@, x as int, y as int, k as int)));
                return None;
            },
        }
        assert forall|j: int| 0 <= j < k + 1 implies Some(
            #[trigger] snapshot_cell(snapshot_view(snap), j),
        ) == region_cell(board@, x as int, y as int, j) by {
            if j < k {
                assert(Some(snapshot_cell(before, j)) == region_cell(board@, x as int, y as int, j));
                assert(nth(j) != nth(k as int));
            }
        }
        k += 1;
    }
    proof {
        let want = region_snapshot(board@, x as int, y as int);
        let got = snapshot_view(snap);
        assert forall|dy: int, dx: int| 0 <= dy < 4 && 0 <= dx < 4 implies #[trigger] got[dy][dx]
            == want[dy][dx] by {
            let j = dy * 4 + dx;
            assert(nth(j) == (dx, dy));
            assert(Some(snapshot_cell(got, j)) == region_cell(board@, x as int, y as int, j));
        }
        assert(got =~~= want);
    }
    Some(snap)
}

/// Tests whether a cell of the snapshot belongs to the placement numbered
/// `id`.
pub fn snapshot_has_id(snap: &Snapshot, id: u32) -> (r: bool)
    ensures
        r == exists|k: int| 0 <= k < 16 && (#[trigger] snapshot_cell(snapshot_view(*snap), k)).id == id,
{
    let mut k: usize = 0;
    while k < 16
        invariant
            k <= 16,
            forall|j: int| 0 <= j < k ==> (#[trigger] snapshot_cell(snapshot_view(*snap), j)).id != id,
        decreases 16 - k,
    {
        if snap[k / SQUARE_SIZE][k % SQUARE_SIZE].id == id {
            assert(snapshot_cell(snapshot_view(*snap), k as int).id == id);
            return true;
        }
        k += 1;
    }
    false
}

/// Tests whether every piece with a block in the region at `(x, y)` lies
/// wholly in the region. The whole board is searched for blocks of these
/// pieces.
pub fn is_contained(board: &Board, x: usize, y: usize, snap: &Snapshot) -> (r: bool)
    requires
        region_fits(x as int, y as int),
        region_filled(board@, x as int, y as int),
        snapshot_view(*snap) == region_snapshot(board@, x as int, y as int),
    ensures
        r == region_contained(board@, x as int, y as int),
{
    let ghost g = board@;
    let ghost gx = x as int;
    let ghost gy = y as int;
    let mut k: usize = 0;
    while k < GRID_WIDTH * GRID_HEIGHT
        invariant
            k <= GRID_WIDTH * GRID_HEIGHT,
            g == board@,
            gx == x as int,
            gy == y as int,
            region_fits(gx, gy),
            region_filled(g, gx, gy),
            snapshot_view(*snap) == region_snapshot(g, gx, gy),
            forall|cx: int, cy: int|
                in_grid(cx, cy) && cy * GRID_WIDTH + cx < k && shares_piece(g, gx, gy, #[trigger] at(g, cx, cy))
                    ==> in_region(gx, gy, cx, cy),
        decreases GRID_WIDTH * GRID_HEIGHT - k,
    {
        let cx: usize = k % GRID_WIDTH;
        let cy: usize = k / GRID_WIDTH;
        let outside = cx < x || cx >= x + SQUARE_SIZE || cy < y || cy >= y + SQUARE_SIZE;
        if outside {
            match board.get(cx, cy) {
                Some(cell) => {
                    let shared = snapshot_has_id(snap, cell.id);
                    proof {
                        lemma_snapshot_ids(g, gx, gy, cell.id);
                    }
                    if shared {
                        assert(shares_piece(g, gx, gy, at(g, cx as int, cy as int)));
                        return false;
                    }
                },
                None => {},
            }
        }
        assert forall|ax: int, ay: int|
            in_grid(ax, ay) && ay * GRID_WIDTH + ax < k + 1 && shares_piece(
                g,
                gx,
                gy,
                #[trigger] at(g, ax, ay),
            ) implies in_region(gx, gy, ax, ay) by {
            if ay * GRID_WIDTH + ax == k {
                assert(ax == cx && ay == cy);
            }
        }
        k += 1;
    }
    true
}

/// Tests whether all pieces of the snapshot are of one kind.
pub fn is_gold_snapshot(snap: &Snapshot) -> (r: bool)
    ensures
        r == snapshot_gold(snapshot_view(*snap)),
{
    let ghost s = snapshot_view(*snap);
    let want = snap[0][0].t_type;
    assert(want == snapshot_cell(s, 0).t_type);
    let mut k: usize = 0;
    while k < 16
        invariant
            k <= 16,
            s == snapshot_view(*snap),
            want == snapshot_cell(s, 0).t_type,
            forall|j: int|
                0 <= j < k && #[trigger] first_of_piece(s, j) ==> snapshot_cell(s, j).t_type == want,
        decreases 16 - k,
    {
        let cell = snap[k / SQUARE_SIZE][k % SQUARE_SIZE];
        assert(cell == snapshot_cell(s, k as int));
        let mut first = true;
        let mut j: usize = 0;
        while j < k
            invariant
                j <= k,
                k < 16,
                s == snapshot_view(*snap),
                cell == snapshot_cell(s, k as int),
                first == forall|i: int| 0 <= i < j ==> (#[trigger] snapshot_cell(s, i)).id != cell.id,
            decreases k - j,
        {
            if snap[j / SQUARE_SIZE][j % SQUARE_SIZE].id == cell.id {
                assert(snapshot_cell(s, j as int).id == cell.id);
                first = false;
            }
            j += 1;
        }
        assert(first == first_of_piece(s, k as int));
        if first && cell.t_type != want {
            return false;
        }
        k += 1;
    }
    true
}

/// Tests whether an effect of the list has its top-left square at `(x, y)`.
pub fn has_effect_at(active: &Vec<SquareEffect>, x: usize, y: usize) -> (r: bool)
    ensures
        r == effect_at(effect_views(active@), x as int, y as int),
{
    let mut i: usize = 0;
    while i < active.len()
        invariant
            i <= active.len(),
            forall|j: int|
                0 <= j < i ==> !((#[trigger] effect_views(active@)[j]).x == x && effect_views(
                    active@,
                )[j].y == y),
        decreases active.len() - i,
    {
        if active[i].x == x && active[i].y == y {
            assert(effect_views(active@)[i as int].x == x);
            return true;
        }
        i += 1;
    }
    false
}

/// Scans the board for bonus squares and starts an effect for each one that
/// has none yet. The regions are visited row by row from the top, and from
/// left to right in each row; the new effects are appended in that order.
pub fn detect_squares(board: &Board, active: &mut Vec<SquareEffect>)
    ensures
        effect_views(final(active)@) == effect_views(old(active)@) + detected(
            board@,
            effect_views(old(active)@),
        ),
{
    let ghost g = board@;
    let ghost before = effect_views(active@);
    let mut k: usize = 0;
    assert(effect_views(active@) =~= before + detected_upto(g, before, 0));
    while k < SCAN_COLUMNS * SCAN_ROWS
        invariant
            k <= SCAN_COLUMNS * SCAN_ROWS,
            g == board@,
            effect_views(active@) == before + detected_upto(g, before, k as nat),
        decreases SCAN_COLUMNS * SCAN_ROWS - k,
    {
        let x: usize = k % SCAN_COLUMNS;
        let y: usize = k / SCAN_COLUMNS;
        let ghost so_far = effect_views(active@);
        proof {
            lemma_detected_positions(g, before, k as nat);
            assert(scan_position(k as int) == (x as int, y as int));
        }
        let mut found = false;
        match take_snapshot(board, x, y) {
            Some(snap) => {
                if is_contained(board, x, y, &snap) {
                    let is_gold = is_gold_snapshot(&snap);
                    let listed = has_effect_at(active, x, y);
                    proof {
                        if effect_at(so_far, x as int, y as int) {
                            let i = choose|i: int|
                                0 <= i < so_far.len() && (#[trigger] so_far[i]).x == x && so_far[i].y
                                    == y;
                            if i >= before.len() {
                                let e = detected_upto(g, before, k as nat)[i - before.len()];
                                assert(so_far[i] == e);
                                assert(e.y * SCAN_COLUMNS + e.x < k);
                            } else {
                                assert(before[i] == so_far[i]);
                            }
                        }
                        if effect_at(before, x as int, y as int) {
                            let i = choose|i: int|
                                0 <= i < before.len() && (#[trigger] before[i]).x == x && before[i].y == y;
                            assert(so_far[i] == before[i]);
                        }
                        assert(listed == effect_at(before, x as int, y as int));
                    }
                    if !listed {
                        let effect = SquareEffect {
                            x,
                            y,
                            is_gold,
                            timer: BLINK_PERIOD,
                            flash_on: true,
                            blinks_remaining: BLINK_COUNT,
                            original: snap,
                        };
                        assert(effect@ == EffectView::fresh(g, x as int, y as int));
                        active.push(effect);
                        assert(effect_views(active@) =~= so_far.push(effect@));
                        found = true;
                    }
                }
            },
            None => {},
        }
        proof {
            let next = detected_upto(g, before, (k + 1) as nat);
            let earlier = detected_upto(g, before, k as nat);
            if found {
                assert(next == earlier.push(EffectView::fresh(g, x as int, y as int)));
                assert(so_far.push(EffectView::fresh(g, x as int, y as int)) =~= before + next);
            } else {
                assert(effect_views(active@) == so_far);
                assert(next == earlier);
            }
        }
        k += 1;
    }
}

/// Turns the sixteen squares of the region at `(x, y)` into bonus blocks.
pub fn convert_region(board: &mut Board, x: usize, y: usize, is_gold: bool)
    requires
        region_fits(x as int, y as int),
    ensures
        final(board)@ == converted(old(board)@, x as int, y as int, is_gold),
{
    let cell = if is_gold {
        Cell { color: Color::Gold, t_type: TetrominoType::BonusGold, id: 0 }
    } else {
        Cell { color: Color::Silver, t_type: TetrominoType::BonusSilver, id: 0 }
    };
    let ghost start = board@;
    let mut k: usize = 0;
    assert(board@ =~~= converted_upto(start, x as int, y as int, is_gold, 0));
    while k < 16
        invariant
            k <= 16,
            region_fits(x as int, y as int),
            cell == bonus_cell(is_gold),
            grid_wf(start),
            board@ == converted_upto(start, x as int, y as int, is_gold, k as int),
        decreases 16 - k,
    {
        let dx: usize = k % SQUARE_SIZE;
        let dy: usize = k / SQUARE_SIZE;
        board.set(x + dx, y + dy, Some(cell));
        assert(board@ =~~= converted_upto(start, x as int, y as int, is_gold, k + 1)) by {
            assert forall|cy: int, cx: int| 0 <= cy < GRID_HEIGHT && 0 <= cx < GRID_WIDTH implies (
            in_region(x as int, y as int, cx, cy) && (cy - y) * SQUARE_SIZE + (cx - x) < k + 1) == ((
            in_region(x as int, y as int, cx, cy) && (cy - y) * SQUARE_SIZE + (cx - x) < k) || (cx == x
                + dx && cy == y + dy)) by {}
        }
        k += 1;
    }
}

/// Lets `dt` pass on every effect of the list, in the order of the list. An
/// effect whose last blink is used up is finished: its region is converted
/// into bonus blocks, its points are added to `score`, and it leaves the
/// list.
pub fn advance_effects(board: &mut Board, active: &mut Vec<SquareEffect>, score: &mut u32, dt: u64)
    requires
        effects_fit(effect_views(old(active)@)),
        *old(score) + advanced(old(board)@, effect_views(old(active)@), dt as nat).gained <= u32::MAX,
    ensures
        final(board)@ == advanced(old(board)@, effect_views(old(active)@), dt as nat).grid,
        effect_views(final(active)@) == advanced(
            old(board)@,
            effect_views(old(active)@),
            dt as nat,
        ).effects,
        *final(score) == *old(score) + advanced(
            old(board)@,
            effect_views(old(active)@),
            dt as nat,
        ).gained,
{
    let ghost g = board@;
    let ghost effects = effect_views(active@);
    let ghost score0 = *score;
    let mut kept: Vec<SquareEffect> = Vec::new();
    let mut i: usize = 0;
    assert(effect_views(kept@) =~= advanced_upto(g, effects, dt as nat, 0).effects);
    while i < active.len()
        invariant
            i <= active.len(),
            effects == effect_views(active@),
            effects_fit(effects),
            score0 + advanced(g, effects, dt as nat).gained <= u32::MAX,
            board@ == advanced_upto(g, effects, dt as nat, i as nat).grid,
            effect_views(kept@) == advanced_upto(g, effects, dt as nat, i as nat).effects,
            *score == score0 + advanced_upto(g, effects, dt as nat, i as nat).gained,
        decreases active.len() - i,
    {
        let mut eff = active[i];
        let ghost seen = eff@;
        assert(seen == effects[i as int]);
        assert(region_fits(seen.x, seen.y));
        eff.timer = count_down(eff.timer, dt);
        if eff.timer == 0 {
            eff.timer = BLINK_PERIOD;
            eff.flash_on = !eff.flash_on;
            if !eff.flash_on && eff.blinks_remaining > 0 {
                eff.blinks_remaining -= 1;
            }
        }
        assert(eff@ == seen.stepped(dt as nat));
        proof {
            lemma_gained_grows(g, effects, dt as nat, (i + 1) as nat, effects.len());
        }
        let ghost kept_before = effect_views(kept@);
        if eff.blinks_remaining == 0 {
            convert_region(board, eff.x, eff.y, eff.is_gold);
            *score += if eff.is_gold {
                GOLD_POINTS
            } else {
                SILVER_POINTS
            };
        } else {
            kept.push(eff);
            assert(effect_views(kept@) =~= kept_before.push(eff@));
        }
        i += 1;
    }
    *active = kept;
}

/// When a region is filled, a block belongs to a placement of the region
/// exactly if a cell of the region's snapshot carries its number.
pub proof fn lemma_snapshot_ids(g: Grid, x: int, y: int, id: u32)
    requires
        region_filled(g, x, y),
    ensures
        region_has_id(g, x, y, id) <==> exists|k: int|
            0 <= k < 16 && (#[trigger] snapshot_cell(region_snapshot(g, x, y), k)).id == id,
{
    let snap = region_snapshot(g, x, y);
    assert forall|k: int| 0 <= k < 16 implies Some(#[trigger] snapshot_cell(snap, k)) == region_cell(
        g,
        x,
        y,
        k,
    ) by {
        assert(contributes(region_cell(g, x, y, k)));
    }
    if region_has_id(g, x, y, id) {
        let k = choose|k: int| 0 <= k < 16 && has_id(#[trigger] region_cell(g, x, y, k), id);
        assert(snapshot_cell(snap, k).id == id);
    }
    if exists|k: int| 0 <= k < 16 && (#[trigger] snapshot_cell(snap, k)).id == id {
        let k = choose|k: int| 0 <= k < 16 && (#[trigger] snapshot_cell(snap, k)).id == id;
        assert(has_id(region_cell(g, x, y, k), id));
    }
}

/// Every effect that the first `n` regions of the scan start lies on the
/// field, at one of these regions, and is as a fresh effect is.
pub proof fn lemma_detected_positions(g: Grid, active: Seq<EffectView>, n: nat)
    ensures
        detected_upto(g, active, n).len() <= n,
        forall|i: int|
            0 <= i < detected_upto(g, active, n).len() ==> {
                let e = #[trigger] detected_upto(g, active, n)[i];
                &&& region_fits(e.x, e.y)
                &&& 0 <= e.y * SCAN_COLUMNS + e.x < n
                &&& qualifies(g, e.x, e.y)
                &&& !effect_at(active, e.x, e.y)
                &&& e == EffectView::fresh(g, e.x, e.y)
            },
    decreases n,
{
    if n > 0 {
        lemma_detected_positions(g, active, (n - 1) as nat);
        let earlier = detected_upto(g, active, (n - 1) as nat);
        let now = detected_upto(g, active, n);
        assert forall|i: int| 0 <= i < now.len() implies {
            let e = #[trigger] now[i];
            &&& region_fits(e.x, e.y)
            &&& 0 <= e.y * SCAN_COLUMNS + e.x < n
            &&& qualifies(g, e.x, e.y)
            &&& !effect_at(active, e.x, e.y)
            &&& e == EffectView::fresh(g, e.x, e.y)
        } by {
            if i < earlier.len() {
                assert(now[i] == earlier[i]);
            }
        }
    }
}

/// The score of the finished effects among the first `n` is no more than
/// that among the first `m`, when `n <= m`.
pub proof fn lemma_gained_grows(g: Grid, effects: Seq<EffectView>, dt: nat, n: nat, m: nat)
    requires
        n <= m,
    ensures
        advanced_upto(g, effects, dt, n).gained <= advanced_upto(g, effects, dt, m).gained,
    decreases m,
{
    if n < m {
        lemma_gained_grows(g, effects, dt, n, (m - 1) as nat);
    }
}

} // verus!

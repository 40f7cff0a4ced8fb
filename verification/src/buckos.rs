//! The hidden buckos: where they hide, which were caught, and what a guess
//! at a cell reports about each of them.

use vstd::prelude::*;
use crate::rng::{random_byte, seed_random};
use crate::text::{decimal, digit_char};

verus! {

/// A cell of the grid, by column `x` and row `y`.
#[derive(Clone, Copy, PartialEq, Eq, Structural, Debug)]
pub struct Cell {
    pub x: u16,
    pub y: u16,
}

/// The text that a guess at cell `(ax, ay)` shows for a bucko at
/// `(bx, by)`: the distance between the two cells, with one decimal.
pub uninterp spec fn distance_label(ax: u16, ay: u16, bx: u16, by: u16) -> Seq<char>;

/// The square of the Euclidean distance between two cells.
pub open spec fn squared_distance(a: Cell, b: Cell) -> nat {
    ((a.x - b.x) * (a.x - b.x) + (a.y - b.y) * (a.y - b.y)) as nat
}

/// `k` is the nearest whole number to ten times the square root of `n`:
/// `k - 1/2 < 10 * sqrt(n) < k + 1/2`, squared and scaled to integers (no
/// square root of an integer lies halfway between two tenths).
pub open spec fn nearest_tenth(n: nat, k: nat) -> bool {
    &&& 400 * n < (2 * k + 1) * (2 * k + 1)
    &&& k == 0 || (2 * k - 1) * (2 * k - 1) < 400 * n
}

/// `text` is the square root of `n` rounded to the nearest tenth, written
/// with one decimal.
pub open spec fn rounds_root(text: Seq<char>, n: nat) -> bool {
    exists|k: nat| nearest_tenth(n, k) && text == #[trigger] tenths(k)
}

/// `k` tenths written with one decimal: the whole part, a point, and the
/// tenths digit.
pub open spec fn tenths(k: nat) -> Seq<char> {
    decimal(k / 10) + seq!['.', digit_char(k % 10)]
}

/// The distance between two cells, as text with one decimal:
/// `format!("{:.1}", a.as_vec2().distance(b.as_vec2()))` with glam's
/// `U16Vec2` and `Vec2` (macroquad's math). The text is named by
/// `distance_label`; a distance is a non-negative finite number, so the
/// text starts with a digit. When the squared distance `n` is at most 2000,
/// the text is `sqrt(n)` rounded to the nearest tenth: the coordinates, their
/// differences, squares and sum are then exact in `f32`, `sqrt` is correctly
/// rounded (an error below `2^-19` for roots under 64), ten times the true
/// root lies at least `1 / (4 * (20 * sqrt(n) + 1))` from the nearest half
/// (over `2.7e-4` here), and `{:.1}` rounds the exact value of the `f32` to
/// the nearest tenth.
#[verifier::external_body]
fn distance_text(a: Cell, b: Cell) -> (label: String)
    ensures
        label@ == distance_label(a.x, a.y, b.x, b.y),
        label@.len() > 0,
        '0' <= label@[0] <= '9',
        squared_distance(a, b) <= 2000 ==> rounds_root(label@, squared_distance(a, b)),
{
    format!(
        "{:.1}",
        macroquad::math::u16vec2(a.x, a.y).as_vec2().distance(
            macroquad::math::u16vec2(b.x, b.y).as_vec2(),
        )
    )
}

/// Ten times a square root is never halfway between two whole numbers, so
/// the nearest tenth of a distance is one number.
pub proof fn lemma_nearest_tenth_unique(n: nat, k1: nat, k2: nat)
    requires
        nearest_tenth(n, k1),
        nearest_tenth(n, k2),
    ensures
        k1 == k2,
{
    if k1 < k2 {
        assert((2 * k1 + 1) * (2 * k1 + 1) <= (2 * k2 - 1) * (2 * k2 - 1)) by (nonlinear_arith)
            requires
                k1 < k2,
        ;
    } else if k2 < k1 {
        assert((2 * k2 + 1) * (2 * k2 + 1) <= (2 * k1 - 1) * (2 * k1 - 1)) by (nonlinear_arith)
            requires
                k2 < k1,
        ;
    }
}

/// No two of `cells` are the same cell.
pub open spec fn distinct(cells: Seq<Cell>) -> bool {
    forall|i: int, j: int| 0 <= i < j < cells.len() ==> cells[i] != cells[j]
}

/// Every cell of `cells` lies on a `side` by `side` grid.
pub open spec fn on_grid(cells: Seq<Cell>, side: nat) -> bool {
    forall|i: int| 0 <= i < cells.len() ==> #[trigger] cells[i].x < side && cells[i].y < side
}

/// What a guess at `cell` shows for a bucko hiding at `hide`: nothing for
/// one caught before, `GOT` for one found now, else the distance.
pub open spec fn reading(caught: bool, hide: Cell, cell: Cell) -> Option<Seq<char>> {
    if caught {
        None
    } else if hide == cell {
        Some("GOT"@)
    } else {
        Some(distance_label(cell.x, cell.y, hide.x, hide.y))
    }
}

/// The readings of a guess at `cell` for all buckos.
pub open spec fn readings(cells: Seq<Cell>, caught: Seq<bool>, cell: Cell) -> Seq<Option<Seq<char>>> {
    Seq::new(cells.len(), |i: int| reading(caught[i], cells[i], cell))
}

/// Which buckos are caught after a guess at `cell`.
pub open spec fn caught_after(cells: Seq<Cell>, caught: Seq<bool>, cell: Cell) -> Seq<bool> {
    Seq::new(cells.len(), |i: int| caught[i] || cells[i] == cell)
}

/// Whether every bucko is caught.
pub open spec fn all_caught(caught: Seq<bool>) -> bool {
    forall|i: int| 0 <= i < caught.len() ==> #[trigger] caught[i]
}

/// The range of a drawn coordinate on a grid of side `side`: the
/// generator gives `0` for the empty range of an empty grid.
pub open spec fn draw_range(side: u8) -> nat {
    if side == 0 {
        1
    } else {
        side as nat
    }
}

/// Every spot of `spots` has both coordinates within `draw_range(side)`.
pub open spec fn spots_in_range(spots: Seq<Cell>, side: u8) -> bool {
    forall|i: int|
        0 <= i < spots.len() ==> #[trigger] spots[i].x < draw_range(side) && spots[i].y
            < draw_range(side)
}

/// The buckos placed by trying `spots` in order: a spot already taken is
/// passed over, any other takes the next bucko.
pub open spec fn settled(spots: Seq<Cell>) -> Seq<Cell>
    decreases spots.len(),
{
    if spots.len() == 0 {
        seq![]
    } else {
        let before = settled(spots.drop_last());
        if before.contains(spots.last()) {
            before
        } else {
            before.push(spots.last())
        }
    }
}

/// Rounds of drawing a spot for one bucko before the first free cell of
/// the grid is taken instead. Each round draws twice from quad-rand's
/// generator, whose state runs through all 2^64 values before it repeats,
/// so a bucko still unplaced after this many rounds would never be placed
/// by drawing.
pub const DRAW_ROUNDS: u64 = 0x8000_0000_0000_0000;

/// Whether some bucko already sits on `spot`.
fn occupied(positions: &Vec<Cell>, spot: Cell) -> (taken: bool)
    ensures
        taken == positions@.contains(spot),
{
    let mut i: usize = 0;
    while i < positions.len()
        invariant
            i <= positions.len(),
            forall|k: int| 0 <= k < i ==> positions@[k] != spot,
        decreases positions.len() - i,
    {
        if positions[i] == spot {
            assert(positions@[i as int] == spot);
            return true;
        }
        i = i + 1;
    }
    false
}

/// Tries to place a bucko on `spot`: it takes the spot unless a bucko
/// already sits there. Returns whether it did.
pub fn place_bucko(positions: &mut Vec<Cell>, spot: Cell) -> (placed: bool)
    ensures
        placed == !old(positions)@.contains(spot),
        final(positions)@ == if placed {
            old(positions)@.push(spot)
        } else {
            old(positions)@
        },
{
    if occupied(positions, spot) {
        false
    } else {
        positions.push(spot);
        true
    }
}

/// Trying one more spot extends `settled` as `place_bucko` does.
proof fn lemma_settled_push(spots: Seq<Cell>, spot: Cell)
    ensures
        settled(spots.push(spot)) == if settled(spots).contains(spot) {
            settled(spots)
        } else {
            settled(spots).push(spot)
        },
{
    assert(spots.push(spot).drop_last() =~= spots);
}

/// Distinct cells, fewer than the distinct cells of `grid`, leave some cell
/// of `grid` free.
proof fn lemma_some_cell_free(grid: Seq<Cell>, positions: Seq<Cell>)
    requires
        distinct(grid),
        positions.len() < grid.len(),
    ensures
        exists|j: int| 0 <= j < grid.len() && !positions.contains(#[trigger] grid[j]),
{
    broadcast use vstd::seq_lib::seq_to_set_is_finite;

    if forall|j: int| 0 <= j < grid.len() ==> positions.contains(#[trigger] grid[j]) {
        assert(grid.no_duplicates()) by {
            assert forall|i: int, j: int|
                0 <= i < grid.len() && 0 <= j < grid.len() && i != j implies grid[i] != grid[j] by {
                if i < j {
                    assert(grid[i] != grid[j]);
                } else {
                    assert(grid[j] != grid[i]);
                }
            }
        }
        grid.unique_seq_to_set();
        positions.lemma_cardinality_of_set();
        assert(grid.to_set().subset_of(positions.to_set())) by {
            assert forall|c: Cell| grid.to_set().contains(c) implies positions.to_set().contains(
                c,
            ) by {
                let j = choose|j: int| 0 <= j < grid.len() && grid[j] == c;
                assert(positions.contains(grid[j]));
            }
        }
        vstd::set_lib::lemma_len_subset(grid.to_set(), positions.to_set());
    }
}

/// The first cell of the grid, column by column, that no bucko sits on.
fn first_free(side: u8, positions: &Vec<Cell>) -> (spot: Cell)
    requires
        distinct(positions@),
        positions.len() < side as int * side as int,
    ensures
        !positions@.contains(spot),
        spot.x < side && spot.y < side,
{
    let grid = grid_cells(side);
    proof {
        lemma_some_cell_free(grid@, positions@);
    }
    let mut j: usize = 0;
    while j < grid.len()
        invariant
            j <= grid.len(),
            distinct(grid@),
            on_grid(grid@, side as nat),
            exists|k: int| 0 <= k < grid.len() && !positions@.contains(#[trigger] grid@[k]),
            forall|k: int| 0 <= k < j ==> positions@.contains(#[trigger] grid@[k]),
        decreases grid.len() - j,
    {
        if !occupied(positions, grid[j]) {
            return grid[j];
        }
        j = j + 1;
    }
    proof {
        let k = choose|k: int| 0 <= k < grid.len() && !positions@.contains(#[trigger] grid@[k]);
        assert(positions@.contains(grid@[k]));
    }
    grid[0]
}

/// All cells of a `side` by `side` grid, column by column.
fn grid_cells(side: u8) -> (cells: Vec<Cell>)
    ensures
        cells.len() == side as int * side as int,
        distinct(cells@),
        on_grid(cells@, side as nat),
{
    let mut cells: Vec<Cell> = Vec::new();
    let mut x: u8 = 0;
    while x < side
        invariant
            x <= side,
            cells.len() == x as int * side as int,
            on_grid(cells@, side as nat),
            forall|i: int, j: int| 0 <= i < j < cells.len() ==> before(cells@[i], cells@[j]),
            forall|i: int| 0 <= i < cells.len() ==> #[trigger] cells@[i].x < x,
        decreases side - x,
    {
        let mut y: u8 = 0;
        while y < side
            invariant
                x < side,
                y <= side,
                cells.len() == x as int * side as int + y,
                on_grid(cells@, side as nat),
                forall|i: int, j: int| 0 <= i < j < cells.len() ==> before(cells@[i], cells@[j]),
                forall|i: int|
                    0 <= i < cells.len() ==> before(
                        #[trigger] cells@[i],
                        Cell { x: x as u16, y: y as u16 },
                    ),
                forall|i: int| 0 <= i < cells.len() ==> #[trigger] cells@[i].x <= x,
            decreases side - y,
        {
            cells.push(Cell { x: x as u16, y: y as u16 });
            y = y + 1;
        }
        assert(cells.len() == (x + 1) as int * side as int) by (nonlinear_arith)
            requires
                cells.len() == x as int * side as int + side,
        ;
        x = x + 1;
    }
    proof {
        assert forall|i: int, j: int| 0 <= i < j < cells.len() implies cells@[i] != cells@[j] by {
            assert(before(cells@[i], cells@[j]));
        }
    }
    cells
}

/// `a` comes strictly before `b`, column first, then row.
spec fn before(a: Cell, b: Cell) -> bool {
    a.x < b.x || (a.x == b.x && a.y < b.y)
}

/// The buckos of one game and which of them were caught.
pub struct Buckos {
    positions: Vec<Cell>,
    captured: Vec<bool>,
    side: u8,
}

impl Buckos {
    #[verifier::type_invariant]
    spec fn inv(self) -> bool {
        &&& self.captured.len() == self.positions.len()
        &&& distinct(self.positions@)
        &&& self.side > 0 ==> on_grid(self.positions@, self.side as nat)
    }

    /// The side of the grid the buckos were hidden on (0 before any round).
    pub closed spec fn grid_side(&self) -> u8 {
        self.side
    }

    /// Where the buckos hide.
    pub closed spec fn cells(&self) -> Seq<Cell> {
        self.positions@
    }

    /// Which buckos were caught.
    pub closed spec fn caught(&self) -> Seq<bool> {
        self.captured@
    }

    /// One flag per bucko, no two buckos in one cell, and every bucko on
    /// the grid.
    pub open spec fn well_formed(&self) -> bool {
        &&& self.caught().len() == self.cells().len()
        &&& distinct(self.cells())
        &&& self.grid_side() > 0 ==> on_grid(self.cells(), self.grid_side() as nat)
    }

    /// No buckos at all.
    pub fn empty() -> (b: Self)
        ensures
            b.well_formed(),
            b.cells() == Seq::<Cell>::empty(),
            b.caught() == Seq::<bool>::empty(),
            b.grid_side() == 0,
    {
        Buckos { positions: Vec::new(), captured: Vec::new(), side: 0 }
    }

    /// Hides `amount` buckos in distinct random cells of the grid, after
    /// seeding the generator with `seed`. The grid side is `grid_size`
    /// taken as a byte, as the generator draws byte coordinates. For each
    /// bucko in turn, a column and then a row are drawn until the spot they
    /// give is free (see `place_bucko`); after `DRAW_ROUNDS` rounds the
    /// first free cell is taken. On an empty grid every draw gives `0`, so a
    /// single bucko lands at column 0, row 0. None is caught yet.
    pub fn new(amount: u8, grid_size: u16, seed: u64) -> (b: Self)
        requires
            amount as int <= (grid_size as u8) as int * (grid_size as u8) as int || (
            grid_size as u8 == 0 && amount <= 1),
        ensures
            b.well_formed(),
            b.grid_side() == grid_size as u8,
            b.cells().len() == amount,
            (grid_size as u8) > 0 ==> on_grid(b.cells(), (grid_size as u8) as nat),
            (grid_size as u8) == 0 ==> b.cells() == Seq::new(
                amount as nat,
                |i: int| Cell { x: 0, y: 0 },
            ),
            b.caught() == Seq::new(amount as nat, |i: int| false),
            exists|spots: Seq<Cell>|
                spots_in_range(spots, grid_size as u8) && b.cells() == #[trigger] settled(spots),
    {
        seed_random(seed);
        let side: u8 = grid_size as u8;
        let mut positions: Vec<Cell> = Vec::new();
        let mut captured: Vec<bool> = Vec::new();
        let ghost mut spots: Seq<Cell> = seq![];
        let mut i: u8 = 0;
        while i < amount
            invariant
                amount as int <= side as int * side as int || (side == 0 && amount <= 1),
                i <= amount,
                positions.len() == i,
                captured@ == Seq::new(i as nat, |k: int| false),
                distinct(positions@),
                side > 0 ==> on_grid(positions@, side as nat),
                side == 0 ==> positions@ == Seq::new(i as nat, |k: int| Cell { x: 0, y: 0 }),
                spots_in_range(spots, side),
                positions@ == settled(spots),
            decreases amount - i,
        {
            let mut placed = false;
            let mut rounds: u64 = 0;
            while !placed && rounds < DRAW_ROUNDS
                invariant
                    i < amount,
                    amount as int <= side as int * side as int || (side == 0 && amount <= 1),
                    !placed ==> positions.len() == i,
                    placed ==> positions.len() == i + 1,
                    i == 0 && rounds > 0 ==> placed,
                    distinct(positions@),
                    side > 0 ==> on_grid(positions@, side as nat),
                    side == 0 ==> positions@ == Seq::new(
                        positions.len() as nat,
                        |k: int| Cell { x: 0, y: 0 },
                    ),
                    spots_in_range(spots, side),
                    positions@ == settled(spots),
                decreases DRAW_ROUNDS - rounds,
            {
                let x = random_byte(0, side);
                let y = random_byte(0, side);
                let spot = Cell { x: x as u16, y: y as u16 };
                let ghost before = positions@;
                proof {
                    lemma_settled_push(spots, spot);
                    spots = spots.push(spot);
                }
                placed = place_bucko(&mut positions, spot);
                proof {
                    if placed {
                        assert forall|a: int, c: int|
                            0 <= a < c < positions.len() implies positions@[a] != positions@[c] by {
                            if c == before.len() {
                                assert(before.contains(before[a]));
                            }
                        }
                        if side == 0 {
                            assert(positions@ =~= Seq::new(
                                positions.len() as nat,
                                |k: int| Cell { x: 0, y: 0 },
                            ));
                        }
                    }
                }
                rounds = rounds + 1;
            }
            if !placed {
                let spot = first_free(side, &positions);
                let ghost before = positions@;
                proof {
                    lemma_settled_push(spots, spot);
                    spots = spots.push(spot);
                }
                let _placed = place_bucko(&mut positions, spot);
                proof {
                    assert forall|a: int, c: int|
                        0 <= a < c < positions.len() implies positions@[a] != positions@[c] by {
                        if c == before.len() {
                            assert(before.contains(before[a]));
                        }
                    }
                }
            }
            captured.push(false);
            i = i + 1;
            assert(captured@ =~= Seq::new(i as nat, |k: int| false));
        }
        Buckos { positions, captured, side }
    }

    /// Guesses `cell`: reports on each bucko (see `reading`) and catches any
    /// bucko hiding there.
    pub fn distances(&mut self, cell: Cell) -> (out: Vec<Option<String>>)
        ensures
            final(self).well_formed(),
            final(self).cells() == old(self).cells(),
            final(self).grid_side() == old(self).grid_side(),
            final(self).caught() == caught_after(old(self).cells(), old(self).caught(), cell),
            out.len() == old(self).cells().len(),
            out.deep_view() == readings(old(self).cells(), old(self).caught(), cell),
            forall|i: int|
                0 <= i < out.len() ==> (#[trigger] out.deep_view()[i] == Some("GOT"@) <==> (
                !old(self).caught()[i] && old(self).cells()[i] == cell)),
            forall|i: int|
                0 <= i < out.len() && !old(self).caught()[i] && old(self).cells()[i] != cell
                    && squared_distance(cell, old(self).cells()[i]) <= 2000 ==> (
                #[trigger] out.deep_view()[i] matches Some(text) && rounds_root(
                    text,
                    squared_distance(cell, old(self).cells()[i]),
                )),
    {
        proof {
            use_type_invariant(&*self);
        }
        let mut taken = Buckos::empty();
        std::mem::swap(self, &mut taken);
        let Buckos { positions, mut captured, side } = taken;
        let mut out: Vec<Option<String>> = Vec::new();
        let n = positions.len();
        let ghost cells = positions@;
        let ghost caught = captured@;
        let mut i: usize = 0;
        while i < n
            invariant
                n == positions.len(),
                positions@ == cells,
                captured.len() == n,
                caught.len() == n,
                i <= n,
                forall|k: int| 0 <= k < i ==> #[trigger] captured@[k] == (caught[k] || cells[k] == cell),
                forall|k: int| i <= k < n ==> #[trigger] captured@[k] == caught[k],
                out.deep_view() =~= readings(cells, caught, cell).take(i as int),
                forall|k: int|
                    0 <= k < i ==> (#[trigger] out.deep_view()[k] == Some("GOT"@) <==> (!caught[k]
                        && cells[k] == cell)),
                forall|j: int|
                    0 <= j < i && !caught[j] && cells[j] != cell && squared_distance(cell, cells[j])
                        <= 2000 ==> (#[trigger] out.deep_view()[j] matches Some(text)
                        && rounds_root(text, squared_distance(cell, cells[j]))),
            decreases n - i,
        {
            let spot = positions[i];
            let ghost before = out.deep_view();
            if captured[i] {
                out.push(None);
            } else if cell == spot {
                captured.set(i, true);
                out.push(Some(String::from_str("GOT")));
            } else {
                let label = distance_text(cell, spot);
                assert(label@ != "GOT"@) by {
                    reveal_strlit("GOT");
                    assert(label@[0] != "GOT"@[0]);
                }
                out.push(Some(label));
            }
            assert(out.deep_view() =~= before.push(readings(cells, caught, cell)[i as int]));
            i = i + 1;
        }
        assert(captured@ =~= caught_after(cells, caught, cell));
        *self = Buckos { positions, captured, side };
        out
    }

    /// Whether every bucko is caught.
    pub fn all_captured(&self) -> (b: bool)
        ensures
            self.well_formed(),
            b == all_caught(self.caught()),
    {
        proof {
            use_type_invariant(self);
        }
        let mut i: usize = 0;
        while i < self.captured.len()
            invariant
                self.well_formed(),
                i <= self.captured.len(),
                forall|k: int| 0 <= k < i ==> #[trigger] self.captured@[k],
            decreases self.captured.len() - i,
        {
            if !self.captured[i] {
                return false;
            }
            i = i + 1;
        }
        true
    }

    /// Where the buckos hide.
    pub fn positions(&self) -> (cells: &Vec<Cell>)
        ensures
            self.well_formed(),
            cells@ == self.cells(),
    {
        proof {
            use_type_invariant(self);
        }
        &self.positions
    }

    /// Which buckos were caught.
    pub fn captured(&self) -> (caught: &Vec<bool>)
        ensures
            self.well_formed(),
            caught@ == self.caught(),
    {
        proof {
            use_type_invariant(self);
        }
        &self.captured
    }

}

} // verus!

verus! {

/// A bucko once caught stays caught, and a bucko is caught by a guess
/// exactly when it was caught before or hides in the guessed cell.
pub proof fn lemma_caught_stays_caught(cells: Seq<Cell>, caught: Seq<bool>, cell: Cell, i: int)
    requires
        caught.len() == cells.len(),
        0 <= i < cells.len(),
    ensures
        caught[i] ==> caught_after(cells, caught, cell)[i],
        caught_after(cells, caught, cell)[i] <==> (caught[i] || cells[i] == cell),
{
}

/// Guessing the same cell a second time catches nothing more.
pub proof fn lemma_guess_again_catches_nothing(cells: Seq<Cell>, caught: Seq<bool>, cell: Cell)
    requires
        caught.len() == cells.len(),
    ensures
        caught_after(cells, caught_after(cells, caught, cell), cell) == caught_after(
            cells,
            caught,
            cell,
        ),
{
    assert(caught_after(cells, caught_after(cells, caught, cell), cell) =~= caught_after(
        cells,
        caught,
        cell,
    ));
}

/// With the buckos in distinct cells, one guess catches at most one bucko.
pub proof fn lemma_one_catch_per_guess(cells: Seq<Cell>, caught: Seq<bool>, cell: Cell, i: int, j: int)
    requires
        caught.len() == cells.len(),
        distinct(cells),
        0 <= i < cells.len(),
        0 <= j < cells.len(),
        !caught[i] && caught_after(cells, caught, cell)[i],
        !caught[j] && caught_after(cells, caught, cell)[j],
    ensures
        i == j,
{
    if i < j {
        assert(cells[i] != cells[j]);
    } else if j < i {
        assert(cells[j] != cells[i]);
    }
}

/// Once every bucko is caught, every further guess reports nothing and
/// keeps them all caught.
pub proof fn lemma_all_caught_is_final(cells: Seq<Cell>, caught: Seq<bool>, cell: Cell)
    requires
        caught.len() == cells.len(),
        all_caught(caught),
    ensures
        all_caught(caught_after(cells, caught, cell)),
        readings(cells, caught, cell) == Seq::new(cells.len(), |i: int| None::<Seq<char>>),
{
    assert(readings(cells, caught, cell) =~= Seq::new(cells.len(), |i: int| None::<Seq<char>>));
}

} // verus!

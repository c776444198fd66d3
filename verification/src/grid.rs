//! The grid engine: storage, neighbor counting, the generation step, and the
//! mutation and rendering operations.

use vstd::prelude::*;
use vstd::pervasive::VecAdditionalExecFns;
use vstd::arithmetic::div_mod::lemma_fundamental_div_mod_converse;
use vstd::string::StringExecFns;
use crate::cell::Cell;
use crate::cell::flip;
use crate::cell::flipped;
use crate::cell::glyph;
use crate::cell::next_cell;
use crate::cell::next_cell_state;
use crate::coords::dec_wrap;
use crate::coords::dec_wrapped;
use crate::coords::flat_index;
use crate::coords::inc_wrap;
use crate::coords::inc_wrapped;
use crate::coords::lemma_flat_index_in_range;
use crate::coords::lemma_flat_index_roundtrip;
use crate::coords::lemma_u32_mul_fits_u64;
use crate::coords::wrap_add;
use crate::coords::wrapped;

verus! {

/// The two caller-contract violations the engine reports: a construction or
/// resize whose cell count would be zero or overflow the index type, and a
/// coordinate outside `[0, height) x [0, width)`.
#[derive(Clone, Copy, Debug, PartialEq, Eq, Structural)]
pub enum GridError {
    InvalidDimensions,
    IndexOutOfBounds,
}

/// An injected source of random booleans. The engine draws from it for
/// randomized seeding and injection; nothing is assumed about the values
/// drawn, so every result of the engine holds for every source.
pub trait BoolSource {
    /// Draws the next boolean from the source.
    fn next_bool(&mut self) -> bool;
}

/// A deterministic source that cycles through a fixed pattern of booleans,
/// for reproducible seeding.
pub struct CycleSource {
    bits: Vec<bool>,
    pos: usize,
}

impl CycleSource {
    /// Creates a source that repeats `bits` forever; an empty pattern yields
    /// `false` forever.
    pub fn new(bits: Vec<bool>) -> CycleSource {
        CycleSource { bits, pos: 0 }
    }
}

impl BoolSource for CycleSource {
    fn next_bool(&mut self) -> bool {
        if self.bits.len() == 0 {
            false
        } else {
            if self.pos >= self.bits.len() {
                self.pos = 0;
            }
            let b = self.bits[self.pos];
            self.pos = self.pos + 1;
            b
        }
    }
}

/// The mathematical model of a grid: its dimensions and the flat, row-major
/// sequence of cell states.
pub ghost struct GridView {
    pub width: int,
    pub height: int,
    pub cells: Seq<Cell>,
}

/// Conway's Game of Life on a toroidal grid: a flat, row-major array of
/// cells with fixed width and height.
#[derive(Debug)]
pub struct Universe {
    width: u32,
    height: u32,
    cells: Vec<Cell>,
}

impl View for Universe {
    type V = GridView;

    closed spec fn view(&self) -> GridView {
        GridView {
            width: self.width as int,
            height: self.height as int,
            cells: self.cells@,
        }
    }
}

/// The deterministic seeding pattern: position `i` starts alive when `i` is
/// divisible by 2 or by 7.
pub open spec fn parity_cell(i: int) -> Cell {
    if i % 2 == 0 || i % 7 == 0 {
        Cell::Alive
    } else {
        Cell::Dead
    }
}

/// The whole parity seeding of a grid of `n` cells.
pub open spec fn parity_seed(n: int) -> Seq<Cell> {
    Seq::new(n as nat, |i: int| parity_cell(i))
}

/// A grid of `n` cells, all dead.
pub open spec fn dead_cells(n: int) -> Seq<Cell> {
    Seq::new(n as nat, |i: int| Cell::Dead)
}

/// Dimensions are accepted when both are positive and the cell count fits
/// the index type.
pub open spec fn valid_dimensions(width: int, height: int) -> bool {
    0 < width && 0 < height && width * height <= usize::MAX
}

/// 1 when the cell at `(row, col)` is alive, else 0.
pub open spec fn alive_one(cells: Seq<Cell>, width: int, row: int, col: int) -> int {
    if cells[flat_index(row, col, width)] == Cell::Alive {
        1int
    } else {
        0int
    }
}

/// The number of alive cells among the 8 toroidal neighbors of `(row, col)`:
/// every position at offset `-1`, `0`, or `+1` in each direction, except the
/// cell itself, with both coordinates wrapped around the grid edges. On a
/// dimension of size 1 the wrap makes distinct offsets coincide, so a cell
/// can be counted through more than one of its neighbor slots, as the
/// toroidal topology demands.
pub open spec fn live_neighbors(cells: Seq<Cell>, width: int, height: int, row: int, col: int) -> int {
    let rm = dec_wrapped(row, height);
    let rp = inc_wrapped(row, height);
    let cm = dec_wrapped(col, width);
    let cp = inc_wrapped(col, width);
    alive_one(cells, width, rm, cm) + alive_one(cells, width, rm, col) + alive_one(
        cells,
        width,
        rm,
        cp,
    ) + alive_one(cells, width, row, cm) + alive_one(cells, width, row, cp) + alive_one(
        cells,
        width,
        rp,
        cm,
    ) + alive_one(cells, width, rp, col) + alive_one(cells, width, rp, cp)
}

/// A coordinate pair `(row, col)` lies inside the grid.
pub open spec fn coord_in_bounds(c: (u32, u32), width: int, height: int) -> bool {
    (c.0 as int) < height && (c.1 as int) < width
}

/// Some listed coordinate has flat index `j`.
pub open spec fn covers(coords: Seq<(u32, u32)>, width: int, j: int) -> bool {
    exists|k: int|
        0 <= k < coords.len() && #[trigger] flat_index(
            coords[k].0 as int,
            coords[k].1 as int,
            width,
        ) == j
}

/// Extending the processed prefix of the coordinate list by one entry covers
/// exactly the flat index of that entry in addition.
proof fn lemma_covers_step(coords: Seq<(u32, u32)>, m: int, width: int, j: int)
    requires
        0 <= m < coords.len(),
    ensures
        covers(coords.take(m + 1), width, j) <==> (covers(coords.take(m), width, j) || flat_index(
            coords[m].0 as int,
            coords[m].1 as int,
            width,
        ) == j),
{
    if covers(coords.take(m + 1), width, j) {
        let k = choose|k: int|
            0 <= k < coords.take(m + 1).len() && #[trigger] flat_index(
                coords.take(m + 1)[k].0 as int,
                coords.take(m + 1)[k].1 as int,
                width,
            ) == j;
        assert(coords.take(m + 1)[k] == coords[k]);
        if k < m {
            assert(coords.take(m)[k] == coords[k]);
            assert(covers(coords.take(m), width, j));
        }
    }
    if covers(coords.take(m), width, j) {
        let k = choose|k: int|
            0 <= k < coords.take(m).len() && #[trigger] flat_index(
                coords.take(m)[k].0 as int,
                coords.take(m)[k].1 as int,
                width,
            ) == j;
        assert(coords.take(m + 1)[k] == coords[k]);
        assert(covers(coords.take(m + 1), width, j));
    }
    if flat_index(coords[m].0 as int, coords[m].1 as int, width) == j {
        assert(coords.take(m + 1)[m] == coords[m]);
        assert(covers(coords.take(m + 1), width, j));
    }
}

/// Flat index `j` lies inside the square patch of side `2 * size` centered
/// on `(center_row, center_col)`: some offset pair `(dr, dc)` with each
/// component in `[-size, size)` reaches it after wrapping both coordinates
/// around the grid edges.
pub open spec fn in_patch(
    width: int,
    height: int,
    center_row: int,
    center_col: int,
    size: int,
    j: int,
) -> bool {
    exists|dr: int, dc: int|
        -size <= dr < size && -size <= dc < size && #[trigger] flat_index(
            wrapped(center_row + dr, height),
            wrapped(center_col + dc, width),
            width,
        ) == j
}

/// The character at position `p` of the rendered text: each row is `width`
/// glyphs followed by one line break, so positions are taken modulo
/// `width + 1`, and the last position of each line holds `'\n'`.
pub open spec fn render_char(cells: Seq<Cell>, width: int, p: int) -> char {
    if p % (width + 1) == width {
        '\n'
    } else {
        glyph(cells[flat_index(p / (width + 1), p % (width + 1), width)])
    }
}

/// The full rendered text of a grid: `height` lines of `width` glyphs, each
/// line closed by `'\n'`.
pub open spec fn rendered(cells: Seq<Cell>, width: int, height: int) -> Seq<char> {
    Seq::new((height * (width + 1)) as nat, |p: int| render_char(cells, width, p))
}

/// One generation of the Conway rule applied to every cell simultaneously,
/// each next state computed from the same frozen snapshot `cells`.
pub open spec fn next_generation(cells: Seq<Cell>, width: int, height: int) -> Seq<Cell> {
    Seq::new(
        (width * height) as nat,
        |i: int|
            next_cell_state(
                cells[i],
                live_neighbors(cells, width, height, i / width, i % width),
            ),
    )
}

/// Toggling the same position twice restores the original cell array: the
/// second toggle undoes the first, whatever state the cell started in.
pub proof fn lemma_toggle_twice_restores(cells: Seq<Cell>, i: int)
    requires
        0 <= i < cells.len(),
    ensures
        ({
            let once = cells.update(i, flipped(cells[i]));
            once.update(i, flipped(once[i])) == cells
        }),
{
    let once = cells.update(i, flipped(cells[i]));
    crate::cell::lemma_flip_involutive(cells[i]);
    assert(once.update(i, flipped(once[i])) =~= cells);
}

impl Universe {
    /// Well-formedness: both dimensions are positive, fit the index type, and
    /// the flat array holds exactly one cell per grid position.
    pub open spec fn wf(self) -> bool {
        &&& 0 < self@.width <= u32::MAX
        &&& 0 < self@.height <= u32::MAX
        &&& self@.cells.len() == self@.width * self@.height
    }

    /// Allocates a `width x height` grid seeded with the parity pattern, or
    /// `InvalidDimensions` when a dimension is zero or the cell count would
    /// overflow the index type.
    pub fn new(width: u32, height: u32) -> (r: Result<Universe, GridError>)
        ensures
            r is Ok <==> valid_dimensions(width as int, height as int),
            r is Err ==> r->Err_0 == GridError::InvalidDimensions,
            r is Ok ==> r->Ok_0.wf() && r->Ok_0@.width == width && r->Ok_0@.height == height
                && r->Ok_0@.cells == parity_seed((width as int) * (height as int)),
    {
        if width == 0 || height == 0 {
            return Err(GridError::InvalidDimensions);
        }
        proof {
            lemma_u32_mul_fits_u64(width as int, height as int);
        }
        let n64: u64 = (width as u64) * (height as u64);
        if n64 > usize::MAX as u64 {
            return Err(GridError::InvalidDimensions);
        }
        let n: usize = n64 as usize;
        let mut cells: Vec<Cell> = Vec::with_capacity(n);
        let mut i: usize = 0;
        while i < n
            invariant
                i <= n,
                cells@.len() == i,
                forall|j: int| 0 <= j < i ==> cells@[j] == parity_cell(j),
            decreases n - i,
        {
            if i % 2 == 0 || i % 7 == 0 {
                cells.push(Cell::Alive);
            } else {
                cells.push(Cell::Dead);
            }
            i = i + 1;
        }
        proof {
            assert(cells@ =~= parity_seed((width as int) * (height as int)));
        }
        Ok(Universe { width, height, cells })
    }

    /// Allocates a `width x height` grid with every cell drawn from the
    /// injected random source, or `InvalidDimensions` as in [`Universe::new`].
    pub fn new_random<R: BoolSource>(width: u32, height: u32, rng: &mut R) -> (r: Result<
        Universe,
        GridError,
    >)
        ensures
            r is Ok <==> valid_dimensions(width as int, height as int),
            r is Err ==> r->Err_0 == GridError::InvalidDimensions,
            r is Ok ==> r->Ok_0.wf() && r->Ok_0@.width == width && r->Ok_0@.height == height,
    {
        if width == 0 || height == 0 {
            return Err(GridError::InvalidDimensions);
        }
        proof {
            lemma_u32_mul_fits_u64(width as int, height as int);
        }
        let n64: u64 = (width as u64) * (height as u64);
        if n64 > usize::MAX as u64 {
            return Err(GridError::InvalidDimensions);
        }
        let n: usize = n64 as usize;
        let mut cells: Vec<Cell> = Vec::with_capacity(n);
        let mut i: usize = 0;
        while i < n
            invariant
                i <= n,
                cells@.len() == i,
            decreases n - i,
        {
            if rng.next_bool() {
                cells.push(Cell::Alive);
            } else {
                cells.push(Cell::Dead);
            }
            i = i + 1;
        }
        Ok(Universe { width, height, cells })
    }

    /// Replaces the width, reallocates to `width x height` cells, and resets
    /// every cell to `Dead`; prior cell states are discarded by design.
    /// Fails with `InvalidDimensions` when the new cell count would be zero
    /// or overflow the index type, leaving the grid unchanged.
    pub fn set_width(&mut self, width: u32) -> (r: Result<(), GridError>)
        requires
            old(self).wf(),
        ensures
            r is Ok <==> valid_dimensions(width as int, old(self)@.height),
            r is Err ==> *final(self) == *old(self) && r->Err_0 == GridError::InvalidDimensions,
            r is Ok ==> final(self).wf() && final(self)@.width == width && final(self)@.height
                == old(self)@.height && final(self)@.cells == dead_cells(
                (width as int) * old(self)@.height,
            ),
    {
        if width == 0 {
            return Err(GridError::InvalidDimensions);
        }
        proof {
            lemma_u32_mul_fits_u64(width as int, self.height as int);
        }
        let n64: u64 = (width as u64) * (self.height as u64);
        if n64 > usize::MAX as u64 {
            return Err(GridError::InvalidDimensions);
        }
        let n: usize = n64 as usize;
        let cells: Vec<Cell> = vec![Cell::Dead; n];
        self.width = width;
        self.cells = cells;
        proof {
            assert(self@.cells =~= dead_cells(self@.width * self@.height));
        }
        Ok(())
    }

    /// Replaces the height, reallocates to `width x height` cells, and resets
    /// every cell to `Dead`; prior cell states are discarded by design.
    /// Fails with `InvalidDimensions` when the new cell count would be zero
    /// or overflow the index type, leaving the grid unchanged.
    pub fn set_height(&mut self, height: u32) -> (r: Result<(), GridError>)
        requires
            old(self).wf(),
        ensures
            r is Ok <==> valid_dimensions(old(self)@.width, height as int),
            r is Err ==> *final(self) == *old(self) && r->Err_0 == GridError::InvalidDimensions,
            r is Ok ==> final(self).wf() && final(self)@.width == old(self)@.width
                && final(self)@.height == height && final(self)@.cells == dead_cells(
                old(self)@.width * (height as int),
            ),
    {
        if height == 0 {
            return Err(GridError::InvalidDimensions);
        }
        proof {
            lemma_u32_mul_fits_u64(self.width as int, height as int);
        }
        let n64: u64 = (self.width as u64) * (height as u64);
        if n64 > usize::MAX as u64 {
            return Err(GridError::InvalidDimensions);
        }
        let n: usize = n64 as usize;
        let cells: Vec<Cell> = vec![Cell::Dead; n];
        self.height = height;
        self.cells = cells;
        proof {
            assert(self@.cells =~= dead_cells(self@.width * self@.height));
        }
        Ok(())
    }

    /// The grid width.
    pub fn width(&self) -> (r: u32)
        ensures
            r == self@.width,
    {
        self.width
    }

    /// The grid height.
    pub fn height(&self) -> (r: u32)
        ensures
            r == self@.height,
    {
        self.height
    }

    /// A read-only view of the flat cell array.
    pub fn cells(&self) -> (r: &[Cell])
        ensures
            r@ == self@.cells,
    {
        self.cells.as_slice()
    }

    /// A read-only view of the flat cell array.
    pub fn get_cells(&self) -> (r: &[Cell])
        ensures
            r@ == self@.cells,
    {
        self.cells.as_slice()
    }

    /// The flat index of an in-bounds coordinate.
    fn get_index(&self, row: u32, col: u32) -> (r: usize)
        requires
            self.wf(),
            row < self@.height,
            col < self@.width,
        ensures
            r == flat_index(row as int, col as int, self@.width),
            r < self@.cells.len(),
    {
        proof {
            lemma_flat_index_in_range(row as int, col as int, self@.width, self@.height);
        }
        let n: usize = self.cells.len();
        assert((row as int) * (self.width as int) + (col as int) < (n as int));
        (row as usize) * (self.width as usize) + (col as usize)
    }

    /// 1 when the cell at the in-bounds coordinate `(row, col)` is alive,
    /// else 0.
    fn alive_at(&self, row: u32, col: u32) -> (r: u8)
        requires
            self.wf(),
            row < self@.height,
            col < self@.width,
        ensures
            r == alive_one(self@.cells, self@.width, row as int, col as int),
    {
        let i = self.get_index(row, col);
        if self.cells[i] == Cell::Alive {
            1
        } else {
            0
        }
    }

    /// Counts the alive cells among the 8 toroidally adjacent positions of
    /// an in-bounds coordinate; the count is at most 8.
    pub fn live_neighbor_count(&self, row: u32, col: u32) -> (r: u8)
        requires
            self.wf(),
            row < self@.height,
            col < self@.width,
        ensures
            r == live_neighbors(self@.cells, self@.width, self@.height, row as int, col as int),
            r <= 8,
    {
        let rm = dec_wrap(row, self.height);
        let rp = inc_wrap(row, self.height);
        let cm = dec_wrap(col, self.width);
        let cp = inc_wrap(col, self.width);
        self.alive_at(rm, cm) + self.alive_at(rm, col) + self.alive_at(rm, cp) + self.alive_at(
            row,
            cm,
        ) + self.alive_at(row, cp) + self.alive_at(rp, cm) + self.alive_at(rp, col)
            + self.alive_at(rp, cp)
    }

    /// Advances the grid one generation. Every next state is computed from
    /// the frozen snapshot of the current cells, and the cell array is then
    /// replaced atomically, so iteration order cannot affect the result.
    /// Dimensions are unchanged; `tick` is total on a well-formed grid.
    pub fn tick(&mut self)
        requires
            old(self).wf(),
        ensures
            final(self).wf(),
            final(self)@.width == old(self)@.width,
            final(self)@.height == old(self)@.height,
            final(self)@.cells == next_generation(
                old(self)@.cells,
                old(self)@.width,
                old(self)@.height,
            ),
    {
        let ghost snapshot = self@.cells;
        let ghost w = self@.width;
        let ghost h = self@.height;
        let mut next_state: Vec<Cell> = Vec::with_capacity(self.cells.len());
        let mut row: u32 = 0;
        while row < self.height
            invariant
                self.wf(),
                self@.cells == snapshot,
                self@.width == w,
                self@.height == h,
                row <= self@.height,
                next_state@.len() == (row as int) * w,
                forall|j: int|
                    0 <= j < next_state@.len() ==> #[trigger] next_state@[j] == next_cell_state(
                        snapshot[j],
                        live_neighbors(snapshot, w, h, j / w, j % w),
                    ),
            decreases h - row,
        {
            let mut col: u32 = 0;
            while col < self.width
                invariant
                    self.wf(),
                    self@.cells == snapshot,
                    self@.width == w,
                    self@.height == h,
                    row < self@.height,
                    col <= self@.width,
                    next_state@.len() == (row as int) * w + col,
                    forall|j: int|
                        0 <= j < next_state@.len() ==> #[trigger] next_state@[j]
                            == next_cell_state(
                            snapshot[j],
                            live_neighbors(snapshot, w, h, j / w, j % w),
                        ),
                decreases w - col,
            {
                let i = self.get_index(row, col);
                let current = self.cells[i];
                let count = self.live_neighbor_count(row, col);
                proof {
                    lemma_flat_index_roundtrip(row as int, col as int, w, h);
                }
                next_state.push(next_cell(current, count));
                col = col + 1;
            }
            proof {
                assert((row as int + 1) * w == (row as int) * w + w) by (nonlinear_arith);
            }
            row = row + 1;
        }
        proof {
            assert(h * w == w * h) by (nonlinear_arith);
            assert(next_state@ =~= next_generation(snapshot, w, h));
        }
        self.cells = next_state;
    }

    /// Flips the cell at `(row, col)` between `Alive` and `Dead`, or fails
    /// with `IndexOutOfBounds` when the coordinate lies outside the grid,
    /// leaving the grid unchanged.
    pub fn toggle_cell(&mut self, row: u32, col: u32) -> (r: Result<(), GridError>)
        requires
            old(self).wf(),
        ensures
            r is Ok <==> (row < old(self)@.height && col < old(self)@.width),
            r is Err ==> *final(self) == *old(self) && r->Err_0 == GridError::IndexOutOfBounds,
            r is Ok ==> final(self).wf() && final(self)@.width == old(self)@.width
                && final(self)@.height == old(self)@.height && final(self)@.cells == old(
                self,
            )@.cells.update(
                flat_index(row as int, col as int, old(self)@.width),
                flipped(old(self)@.cells[flat_index(row as int, col as int, old(self)@.width)]),
            ),
    {
        if row < self.height && col < self.width {
            let i = self.get_index(row, col);
            let c = self.cells[i];
            self.cells.set(i, flip(c));
            Ok(())
        } else {
            Err(GridError::IndexOutOfBounds)
        }
    }

    /// Sets every listed `(row, col)` coordinate to `Alive`, leaving all
    /// other cells untouched; duplicate coordinates are idempotent. When any
    /// listed coordinate lies outside the grid, fails with `IndexOutOfBounds`
    /// and leaves the grid unchanged.
    pub fn set_cells(&mut self, coords: &[(u32, u32)]) -> (r: Result<(), GridError>)
        requires
            old(self).wf(),
        ensures
            r is Ok <==> (forall|k: int|
                0 <= k < coords@.len() ==> coord_in_bounds(
                    #[trigger] coords@[k],
                    old(self)@.width,
                    old(self)@.height,
                )),
            r is Err ==> *final(self) == *old(self) && r->Err_0 == GridError::IndexOutOfBounds,
            r is Ok ==> final(self).wf() && final(self)@.width == old(self)@.width
                && final(self)@.height == old(self)@.height && final(self)@.cells.len() == old(
                self,
            )@.cells.len() && (forall|j: int|
                0 <= j < old(self)@.cells.len() ==> final(self)@.cells[j] == (if covers(
                    coords@,
                    old(self)@.width,
                    j,
                ) {
                    Cell::Alive
                } else {
                    old(self)@.cells[j]
                })),
    {
        let ghost w = self@.width;
        let ghost h = self@.height;
        let mut k: usize = 0;
        while k < coords.len()
            invariant
                k <= coords@.len(),
                forall|t: int| 0 <= t < k ==> coord_in_bounds(#[trigger] coords@[t], w, h),
                self == old(self),
                w == self@.width,
                h == self@.height,
            decreases coords@.len() - k,
        {
            let (row, col) = coords[k];
            if !(row < self.height && col < self.width) {
                return Err(GridError::IndexOutOfBounds);
            }
            k = k + 1;
        }
        let ghost orig = self@.cells;
        let mut k: usize = 0;
        while k < coords.len()
            invariant
                k <= coords@.len(),
                forall|t: int| 0 <= t < coords@.len() ==> coord_in_bounds(#[trigger] coords@[t], w, h),
                self.wf(),
                w == self@.width,
                h == self@.height,
                self@.cells.len() == orig.len(),
                forall|j: int|
                    0 <= j < orig.len() ==> self@.cells[j] == (if covers(
                        coords@.take(k as int),
                        w,
                        j,
                    ) {
                        Cell::Alive
                    } else {
                        orig[j]
                    }),
            decreases coords@.len() - k,
        {
            let (row, col) = coords[k];
            let i = self.get_index(row, col);
            self.cells.set(i, Cell::Alive);
            proof {
                assert forall|j: int| 0 <= j < orig.len() implies self@.cells[j] == (if covers(
                    coords@.take(k as int + 1),
                    w,
                    j,
                ) {
                    Cell::Alive
                } else {
                    orig[j]
                }) by {
                    lemma_covers_step(coords@, k as int, w, j);
                }
            }
            k = k + 1;
        }
        proof {
            assert(coords@.take(coords@.len() as int) =~= coords@);
        }
        Ok(())
    }

    /// Renders the grid as text, row by row: one glyph per cell and one
    /// line break after each row. Read-only.
    pub fn text_render(&self) -> (r: String)
        requires
            self.wf(),
        ensures
            r@ == rendered(self@.cells, self@.width, self@.height),
    {
        let ghost w = self@.width;
        let ghost h = self@.height;
        let mut s = String::new();
        let mut row: u32 = 0;
        while row < self.height
            invariant
                self.wf(),
                w == self@.width,
                h == self@.height,
                row <= h,
                s@.len() == (row as int) * (w + 1),
                forall|p: int|
                    0 <= p < s@.len() ==> #[trigger] s@[p] == render_char(self@.cells, w, p),
            decreases h - row,
        {
            let mut col: u32 = 0;
            while col < self.width
                invariant
                    self.wf(),
                    w == self@.width,
                    h == self@.height,
                    row < h,
                    col <= w,
                    s@.len() == (row as int) * (w + 1) + col,
                    forall|p: int|
                        0 <= p < s@.len() ==> #[trigger] s@[p] == render_char(self@.cells, w, p),
                decreases w - col,
            {
                let i = self.get_index(row, col);
                proof {
                    lemma_fundamental_div_mod_converse(
                        (row as int) * (w + 1) + col,
                        w + 1,
                        row as int,
                        col as int,
                    );
                    reveal_strlit("\u{25fb}");
                    reveal_strlit("\u{25fc}");
                }
                if self.cells[i] == Cell::Alive {
                    s.append("\u{25fc}");
                } else {
                    s.append("\u{25fb}");
                }
                col = col + 1;
            }
            proof {
                lemma_fundamental_div_mod_converse(
                    (row as int) * (w + 1) + w,
                    w + 1,
                    row as int,
                    w,
                );
                reveal_strlit("\n");
                assert((row as int + 1) * (w + 1) == (row as int) * (w + 1) + w + 1)
                    by (nonlinear_arith);
            }
            s.append("\n");
            row = row + 1;
        }
        proof {
            assert(s@ =~= rendered(self@.cells, w, h));
        }
        s
    }

    /// Assigns a freshly drawn random state to every cell of the square
    /// patch of offsets `(dr, dc)` with `dr, dc` in `[-size, size)` around
    /// `(center_row, center_col)`, each target coordinate wrapped with
    /// floor-modulo so negative offsets wrap upward. Cells outside the patch
    /// are untouched, and `size <= 0` is a no-op regardless of the source.
    pub fn inject_random_cells<R: BoolSource>(
        &mut self,
        center_row: u32,
        center_col: u32,
        size: i32,
        rng: &mut R,
    )
        requires
            old(self).wf(),
        ensures
            final(self).wf(),
            final(self)@.width == old(self)@.width,
            final(self)@.height == old(self)@.height,
            final(self)@.cells.len() == old(self)@.cells.len(),
            forall|j: int|
                0 <= j < old(self)@.cells.len() && !in_patch(
                    old(self)@.width,
                    old(self)@.height,
                    center_row as int,
                    center_col as int,
                    size as int,
                    j,
                ) ==> final(self)@.cells[j] == old(self)@.cells[j],
            size <= 0 ==> final(self)@.cells == old(self)@.cells,
    {
        let ghost w = self@.width;
        let ghost h = self@.height;
        let ghost orig = self@.cells;
        if size <= 0 {
            return;
        }
        let s: u64 = size as u64;
        let two_s: u64 = 2 * s;
        let mut a: u64 = 0;
        while a < two_s
            invariant
                self.wf(),
                w == self@.width,
                h == self@.height,
                self@.cells.len() == orig.len(),
                a <= two_s,
                two_s == 2 * (size as int),
                0 < size,
                forall|j: int|
                    0 <= j < orig.len() && !in_patch(
                        w,
                        h,
                        center_row as int,
                        center_col as int,
                        size as int,
                        j,
                    ) ==> self@.cells[j] == orig[j],
            decreases two_s - a,
        {
            let mut b: u64 = 0;
            while b < two_s
                invariant
                    self.wf(),
                    w == self@.width,
                    h == self@.height,
                    self@.cells.len() == orig.len(),
                    a < two_s,
                    b <= two_s,
                    two_s == 2 * (size as int),
                    0 < size,
                    forall|j: int|
                        0 <= j < orig.len() && !in_patch(
                            w,
                            h,
                            center_row as int,
                            center_col as int,
                            size as int,
                            j,
                        ) ==> self@.cells[j] == orig[j],
                decreases two_s - b,
            {
                let dr: i64 = (a as i64) - (size as i64);
                let dc: i64 = (b as i64) - (size as i64);
                let row = wrap_add(center_row, dr, self.height);
                let col = wrap_add(center_col, dc, self.width);
                let i = self.get_index(row, col);
                let alive = rng.next_bool();
                proof {
                    assert(flat_index(
                        wrapped(center_row as int + dr, h),
                        wrapped(center_col as int + dc, w),
                        w,
                    ) == i as int);
                    assert(in_patch(w, h, center_row as int, center_col as int, size as int, i as int));
                }
                if alive {
                    self.cells.set(i, Cell::Alive);
                } else {
                    self.cells.set(i, Cell::Dead);
                }
                b = b + 1;
            }
            a = a + 1;
        }
    }

    /// The row-major flat index of `(row, col)`, or `IndexOutOfBounds` when
    /// the coordinate lies outside the grid.
    pub fn index_of(&self, row: u32, col: u32) -> (r: Result<usize, GridError>)
        requires
            self.wf(),
        ensures
            r is Ok <==> (row < self@.height && col < self@.width),
            r is Ok ==> r->Ok_0 == flat_index(row as int, col as int, self@.width)
                && r->Ok_0 < self@.cells.len(),
            r is Err ==> r->Err_0 == GridError::IndexOutOfBounds,
    {
        if row < self.height && col < self.width {
            Ok(self.get_index(row, col))
        } else {
            Err(GridError::IndexOutOfBounds)
        }
    }
}

} // verus!

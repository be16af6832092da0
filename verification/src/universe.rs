//! The toroidal grid: packed row-major cell storage, flat index mapping,
//! toroidal neighbor counting, the double-buffered generation step, and
//! the structural mutation operations.
//!
//! Neighbor lookups wrap modulo width and height, so the grid is
//! topologically a torus: population lost at one edge reappears at the
//! opposite edge. Zero is not a valid dimension (index and neighbor
//! arithmetic would divide by zero), so the sizing operations reject it
//! with [`GridError::DomainError`] before touching the buffer.

use vstd::prelude::*;
use vstd::string::StringExecFns;

use crate::cell::{cell_bit, flip, next_cell_state, Cell};
use crate::error::GridError;
use crate::pattern::{random, random_cells_of};

verus! {

/// The rendering symbol of one cell: a white square for dead, a black
/// square for alive.
pub open spec fn symbol_of(c: Cell) -> char {
    match c {
        Cell::Dead => '◻',
        Cell::Alive => '◼',
    }
}

/// One rendered row: the symbols of the row's cells in column order,
/// concatenated with no separator, then a newline.
pub open spec fn row_chars(cells: Seq<Cell>, width: int, row: int) -> Seq<char> {
    Seq::new(
        (width + 1) as nat,
        |c: int|
            if c == width {
                '\n'
            } else {
                symbol_of(cell_at(cells, width, row, c))
            },
    )
}

/// The textual rendering of a grid: the rendered rows from top to
/// bottom, each ending in its newline.
pub open spec fn render_of(cells: Seq<Cell>, width: int, height: int) -> Seq<char>
    decreases height,
{
    if height <= 0 {
        Seq::empty()
    } else {
        render_of(cells, width, height - 1) + row_chars(cells, width, height - 1)
    }
}

/// Flat row-major index of a grid position.
pub open spec fn index_of(row: int, col: int, width: int) -> int {
    row * width + col
}

/// The cell at a grid position in a row-major buffer.
pub open spec fn cell_at(cells: Seq<Cell>, width: int, row: int, col: int) -> Cell {
    cells[index_of(row, col, width)]
}

/// The coordinate one step toward zero, wrapping to the far edge at zero.
pub open spec fn wrap_dec(i: int, n: int) -> int {
    if i == 0 {
        n - 1
    } else {
        i - 1
    }
}

/// The coordinate one step away from zero, wrapping to zero at the far edge.
pub open spec fn wrap_inc(i: int, n: int) -> int {
    if i == n - 1 {
        0
    } else {
        i + 1
    }
}

/// A coordinate advanced by an offset, wrapping modulo the dimension.
pub open spec fn wrap_add(i: int, d: int, n: int) -> int {
    (i + d) % n
}

/// Number of live cells among the eight toroidal neighbors of a position:
/// the (row +/- 1 mod height, col +/- 1 mod width) combinations excluding
/// the position itself.
pub open spec fn neighbor_total(
    cells: Seq<Cell>,
    width: int,
    height: int,
    row: int,
    col: int,
) -> int {
    let north = wrap_dec(row, height);
    let south = wrap_inc(row, height);
    let west = wrap_dec(col, width);
    let east = wrap_inc(col, width);
    cell_bit(cell_at(cells, width, north, west)) + cell_bit(cell_at(cells, width, north, col))
        + cell_bit(cell_at(cells, width, north, east)) + cell_bit(
        cell_at(cells, width, row, west),
    ) + cell_bit(cell_at(cells, width, row, east)) + cell_bit(
        cell_at(cells, width, south, west),
    ) + cell_bit(cell_at(cells, width, south, col)) + cell_bit(
        cell_at(cells, width, south, east),
    )
}

/// The state a position takes in the next generation: the rule table
/// applied to its current state and its live-neighbor count.
pub open spec fn next_at(cells: Seq<Cell>, width: int, height: int, row: int, col: int) -> Cell {
    next_cell_state(
        cell_at(cells, width, row, col),
        neighbor_total(cells, width, height, row, col),
    )
}

/// Every cell of the buffer is dead.
pub open spec fn all_dead(cells: Seq<Cell>) -> bool {
    forall|i: int| 0 <= i < cells.len() ==> cells[i] is Dead
}

/// Every cell of the buffer is alive.
pub open spec fn all_alive(cells: Seq<Cell>) -> bool {
    forall|i: int| 0 <= i < cells.len() ==> cells[i] is Alive
}

/// Number of live cells in a buffer.
pub open spec fn live_count(cells: Seq<Cell>) -> int
    decreases cells.len(),
{
    if cells.len() == 0 {
        0
    } else {
        live_count(cells.drop_last()) + cell_bit(cells.last())
    }
}

/// The buffer with the cell at flat index `i` flipped.
pub open spec fn toggled(cells: Seq<Cell>, i: int) -> Seq<Cell> {
    cells.update(i, flip(cells[i]))
}

/// Whether some entry of a coordinate list names the position (row, col).
pub open spec fn coord_listed(coords: Seq<(u32, u32)>, row: int, col: int) -> bool {
    exists|k: int|
        0 <= k < coords.len() && (#[trigger] coords[k]).0 as int == row && coords[k].1 as int
            == col
}

/// The buffer with the five-cell glider shape stamped alive, its anchor
/// at (row, col), each shape cell addressed with toroidal wrap-around.
pub open spec fn glider_stamped(
    cells: Seq<Cell>,
    width: int,
    height: int,
    row: int,
    col: int,
) -> Seq<Cell> {
    cells.update(index_of(wrap_add(row, 0, height), wrap_add(col, 1, width), width), Cell::Alive)
        .update(index_of(wrap_add(row, 1, height), wrap_add(col, 2, width), width), Cell::Alive)
        .update(index_of(wrap_add(row, 2, height), wrap_add(col, 0, width), width), Cell::Alive)
        .update(index_of(wrap_add(row, 2, height), wrap_add(col, 1, width), width), Cell::Alive)
        .update(index_of(wrap_add(row, 2, height), wrap_add(col, 2, width), width), Cell::Alive)
}

/// A position inside the grid maps to a flat index inside the buffer.
pub proof fn lemma_index_in_range(row: int, col: int, width: int, height: int)
    by (nonlinear_arith)
    requires
        0 <= row < height,
        0 <= col < width,
    ensures
        0 <= row * width + col < width * height,
{
}

/// Positions in rows strictly before `row` map to flat indexes strictly
/// before the start of `row`.
pub proof fn lemma_flat_below_row(r: int, c: int, row: int, width: int)
    by (nonlinear_arith)
    requires
        0 <= r < row,
        0 <= c < width,
    ensures
        0 <= r * width + c < row * width,
{
}

/// The flat index mapping is injective on in-bounds positions.
pub proof fn lemma_index_injective(r1: int, c1: int, r2: int, c2: int, width: int, height: int)
    by (nonlinear_arith)
    requires
        0 <= r1 < height,
        0 <= c1 < width,
        0 <= r2 < height,
        0 <= c2 < width,
        r1 * width + c1 == r2 * width + c2,
    ensures
        r1 == r2,
        c1 == c2,
{
}

/// Taking one more entry of a coordinate list extends the set of listed
/// positions by exactly that entry.
proof fn lemma_coord_listed_step(coords: Seq<(u32, u32)>, k: int, row: int, col: int)
    requires
        0 <= k < coords.len(),
    ensures
        coord_listed(coords.take(k + 1), row, col) <==> (coord_listed(coords.take(k), row, col)
            || (coords[k].0 as int == row && coords[k].1 as int == col)),
{
    if coord_listed(coords.take(k + 1), row, col) {
        let j = choose|j: int|
            0 <= j < coords.take(k + 1).len() && (#[trigger] coords.take(k + 1)[j]).0 as int == row
                && coords.take(k + 1)[j].1 as int == col;
        if j < k {
            assert(coords.take(k)[j] == coords.take(k + 1)[j]);
            assert(coord_listed(coords.take(k), row, col));
        } else {
            assert(coords.take(k + 1)[k] == coords[k]);
        }
    }
    if coord_listed(coords.take(k), row, col) {
        let j = choose|j: int|
            0 <= j < coords.take(k).len() && (#[trigger] coords.take(k)[j]).0 as int == row
                && coords.take(k)[j].1 as int == col;
        assert(coords.take(k + 1)[j] == coords.take(k)[j]);
        assert(coord_listed(coords.take(k + 1), row, col));
    }
    if coords[k].0 as int == row && coords[k].1 as int == col {
        assert(coords.take(k + 1)[k] == coords[k]);
        assert(coord_listed(coords.take(k + 1), row, col));
    }
}

/// An all-dead buffer of the given size.
fn dead_cells(size: usize) -> (cells: Vec<Cell>)
    ensures
        cells@.len() == size as int,
        all_dead(cells@),
{
    let mut cells: Vec<Cell> = Vec::new();
    let mut i: usize = 0;
    while i < size
        invariant
            i <= size,
            cells@.len() == i as int,
            forall|j: int| 0 <= j < i ==> cells@[j] is Dead,
        decreases size - i,
    {
        cells.push(Cell::Dead);
        i = i + 1;
    }
    cells
}

/// A toroidal Game of Life grid: positive dimensions and a packed
/// row-major buffer of exactly width * height cell states.
pub struct Universe {
    /// Number of columns; never zero in a well-formed grid.
    pub width: u32,
    /// Number of rows; never zero in a well-formed grid.
    pub height: u32,
    /// Row-major cell states, `cells[row * width + col]`.
    pub cells: Vec<Cell>,
}

impl Universe {
    /// A well-formed grid: both dimensions positive and a buffer of
    /// exactly width * height cells. Constructors establish this and
    /// every operation preserves it.
    pub open spec fn wf(self) -> bool {
        &&& 1 <= self.width
        &&& 1 <= self.height
        &&& self.cells@.len() == self.width as int * self.height as int
    }

    /// The cell at (row, col).
    pub open spec fn spec_cell(self, row: int, col: int) -> Cell {
        cell_at(self.cells@, self.width as int, row, col)
    }

    /// The live-neighbor count of (row, col).
    pub open spec fn spec_neighbors(self, row: int, col: int) -> int {
        neighbor_total(self.cells@, self.width as int, self.height as int, row, col)
    }

    /// Flat row-major index of (row, column); in bounds for a
    /// well-formed grid.
    pub fn get_index(&self, row: u32, column: u32) -> (idx: usize)
        requires
            self.wf(),
            row < self.height,
            column < self.width,
        ensures
            idx as int == index_of(row as int, column as int, self.width as int),
            idx < self.cells@.len(),
    {
        let total = self.cells.len();
        proof {
            lemma_index_in_range(row as int, column as int, self.width as int, self.height as int);
            assert(index_of(row as int, column as int, self.width as int) < total);
        }
        (row as usize) * (self.width as usize) + (column as usize)
    }

    /// Number of live cells among the eight toroidal neighbors of
    /// (row, column): wrap is modular, never clamped, so corner and edge
    /// positions read from the opposite edges.
    #[verifier::rlimit(50)]
    pub fn live_neighbor_count(&self, row: u32, column: u32) -> (count: u8)
        requires
            self.wf(),
            row < self.height,
            column < self.width,
        ensures
            count as int == self.spec_neighbors(row as int, column as int),
    {
        let mut count: u8 = 0;

        let north: u32 = if row == 0 {
            self.height - 1
        } else {
            row - 1
        };
        let south: u32 = if row == self.height - 1 {
            0
        } else {
            row + 1
        };
        let west: u32 = if column == 0 {
            self.width - 1
        } else {
            column - 1
        };
        let east: u32 = if column == self.width - 1 {
            0
        } else {
            column + 1
        };

        let nw = self.get_index(north, west);
        count += self.cells[nw].bit();

        let n = self.get_index(north, column);
        count += self.cells[n].bit();

        let ne = self.get_index(north, east);
        count += self.cells[ne].bit();

        let w = self.get_index(row, west);
        count += self.cells[w].bit();

        let e = self.get_index(row, east);
        count += self.cells[e].bit();

        let sw = self.get_index(south, west);
        count += self.cells[sw].bit();

        let s = self.get_index(south, column);
        count += self.cells[s].bit();

        let se = self.get_index(south, east);
        count += self.cells[se].bit();

        count
    }

    /// Advance the grid one generation. Every cell's next state is the
    /// rule table applied to its state and neighbor count at the start
    /// of the tick: the new generation is built in a separate buffer
    /// (double buffering), so no intra-tick write is ever observed by a
    /// neighbor read, and the swap at the end makes the step atomic.
    pub fn tick(&mut self)
        requires
            old(self).wf(),
        ensures
            final(self).wf(),
            final(self).width == old(self).width,
            final(self).height == old(self).height,
            forall|r: int, c: int|
                0 <= r < old(self).height as int && 0 <= c < old(self).width as int
                    ==> #[trigger] cell_at(final(self).cells@, old(self).width as int, r, c)
                    == next_at(
                    old(self).cells@,
                    old(self).width as int,
                    old(self).height as int,
                    r,
                    c,
                ),
    {
        let width = self.width;
        let height = self.height;
        let ghost orig: Seq<Cell> = self.cells@;
        let mut next: Vec<Cell> = Vec::new();
        let mut row: u32 = 0;
        while row < height
            invariant
                self.wf(),
                self.width == width,
                self.height == height,
                self.cells@ == orig,
                row <= height,
                next@.len() == row as int * width as int,
                forall|r: int, c: int|
                    0 <= r < row as int && 0 <= c < width as int ==> #[trigger] cell_at(
                        next@,
                        width as int,
                        r,
                        c,
                    ) == next_at(orig, width as int, height as int, r, c),
            decreases height - row,
        {
            let mut col: u32 = 0;
            while col < width
                invariant
                    self.wf(),
                    self.width == width,
                    self.height == height,
                    self.cells@ == orig,
                    row < height,
                    col <= width,
                    next@.len() == row as int * width as int + col as int,
                    forall|r: int, c: int|
                        0 <= r < row as int && 0 <= c < width as int ==> #[trigger] cell_at(
                            next@,
                            width as int,
                            r,
                            c,
                        ) == next_at(orig, width as int, height as int, r, c),
                    forall|c: int|
                        0 <= c < col as int ==> #[trigger] cell_at(next@, width as int, row as int, c)
                            == next_at(orig, width as int, height as int, row as int, c),
                decreases width - col,
            {
                let idx = self.get_index(row, col);
                let cur = self.cells[idx];
                let live = self.live_neighbor_count(row, col);
                let next_cell = cur.next_state(live);
                let ghost prev: Seq<Cell> = next@;
                next.push(next_cell);
                proof {
                    assert(next@ == prev.push(next_cell));
                    assert forall|r: int, c: int|
                        0 <= r < row as int && 0 <= c < width as int implies #[trigger] cell_at(
                        next@,
                        width as int,
                        r,
                        c,
                    ) == next_at(orig, width as int, height as int, r, c) by {
                        lemma_flat_below_row(r, c, row as int, width as int);
                        assert(cell_at(prev, width as int, r, c) == next_at(
                            orig,
                            width as int,
                            height as int,
                            r,
                            c,
                        ));
                        assert(next@[index_of(r, c, width as int)] == prev[index_of(
                            r,
                            c,
                            width as int,
                        )]);
                    }
                    assert forall|c: int| 0 <= c < col as int + 1 implies #[trigger] cell_at(
                        next@,
                        width as int,
                        row as int,
                        c,
                    ) == next_at(orig, width as int, height as int, row as int, c) by {
                        if c < col as int {
                            assert(cell_at(prev, width as int, row as int, c) == next_at(
                                orig,
                                width as int,
                                height as int,
                                row as int,
                                c,
                            ));
                            assert(index_of(row as int, c, width as int) < prev.len());
                            assert(next@[index_of(row as int, c, width as int)] == prev[index_of(
                                row as int,
                                c,
                                width as int,
                            )]);
                        } else {
                            assert(index_of(row as int, c, width as int) == prev.len());
                            assert(next@[prev.len() as int] == next_cell);
                        }
                    }
                }
                col = col + 1;
            }
            proof {
                assert((row as int + 1) * (width as int) == row as int * width as int
                    + width as int) by (nonlinear_arith);
            }
            row = row + 1;
        }
        proof {
            assert(height as int * width as int == width as int * height as int)
                by (nonlinear_arith);
        }
        self.cells = next;
    }

    /// A grid of the given dimensions seeded with the `random` pattern
    /// from the injected draws; zero width or height is rejected with
    /// [`GridError::DomainError`] and no grid is produced.
    pub fn new(width: u32, height: u32, draws: &Vec<bool>) -> (r: Result<Universe, GridError>)
        requires
            draws@.len() == width as int * height as int,
        ensures
            r is Ok <==> (1 <= width && 1 <= height),
            match r {
                Ok(u) => u.wf() && u.width == width && u.height == height && u.cells@
                    == random_cells_of(draws@),
                Err(e) => e == GridError::DomainError,
            },
    {
        if width == 0 || height == 0 {
            return Err(GridError::DomainError);
        }
        let cells = random(draws);
        Ok(Universe { width, height, cells })
    }

    /// A 64 x 64 grid seeded with the `random` pattern from the
    /// injected draws.
    pub fn mynew(draws: &Vec<bool>) -> (u: Universe)
        requires
            draws@.len() == 4096,
        ensures
            u.wf(),
            u.width == 64,
            u.height == 64,
            u.cells@ == random_cells_of(draws@),
    {
        let width: u32 = 64;
        let height: u32 = 64;
        let cells = random(draws);
        Universe { width, height, cells }
    }

    /// Replace both dimensions at once and reinitialize the whole buffer
    /// to the dead state at the new size (intentional data loss on
    /// resize: no prior content survives). A zero dimension is rejected
    /// with [`GridError::DomainError`] and the grid is left untouched.
    pub fn set_size(&mut self, width: u32, height: u32) -> (r: Result<(), GridError>)
        requires
            width as int * height as int <= usize::MAX as int,
        ensures
            r is Ok <==> (1 <= width && 1 <= height),
            match r {
                Ok(()) => final(self).wf() && final(self).width == width && final(self).height
                    == height && all_dead(final(self).cells@),
                Err(e) => e == GridError::DomainError && *final(self) == *old(self),
            },
    {
        if width == 0 || height == 0 {
            return Err(GridError::DomainError);
        }
        let size = (width as usize) * (height as usize);
        self.cells = dead_cells(size);
        self.width = width;
        self.height = height;
        Ok(())
    }

    /// The textual rendering of the grid: dead cells as white squares,
    /// live cells as black squares, columns concatenated with no
    /// separator and rows separated by newlines.
    pub fn render(&self) -> (s: String)
        requires
            self.wf(),
        ensures
            s@ == render_of(self.cells@, self.width as int, self.height as int),
    {
        let mut s = String::new();
        let mut row: u32 = 0;
        while row < self.height
            invariant
                self.wf(),
                row <= self.height,
                s@ == render_of(self.cells@, self.width as int, row as int),
            decreases self.height - row,
        {
            let mut col: u32 = 0;
            while col < self.width
                invariant
                    self.wf(),
                    row < self.height,
                    col <= self.width,
                    s@ == render_of(self.cells@, self.width as int, row as int) + row_chars(
                        self.cells@,
                        self.width as int,
                        row as int,
                    ).take(col as int),
                decreases self.width - col,
            {
                let idx = self.get_index(row, col);
                let symbol: &str = match self.cells[idx] {
                    Cell::Dead => "◻",
                    Cell::Alive => "◼",
                };
                s.append(symbol);
                proof {
                    reveal_strlit("◻");
                    reveal_strlit("◼");
                    let w = self.width as int;
                    let rc = row_chars(self.cells@, w, row as int);
                    assert(rc.take(col as int + 1) =~= rc.take(col as int).push(
                        symbol_of(cell_at(self.cells@, w, row as int, col as int)),
                    ));
                    assert(s@ =~= render_of(self.cells@, w, row as int) + rc.take(col as int + 1));
                }
                col = col + 1;
            }
            s.append("\n");
            proof {
                reveal_strlit("\n");
                let w = self.width as int;
                let rc = row_chars(self.cells@, w, row as int);
                assert(rc =~= rc.take(w).push('\n'));
                assert(s@ =~= render_of(self.cells@, w, row as int + 1));
            }
            row = row + 1;
        }
        s
    }

    /// Number of columns.
    pub fn width(&self) -> (w: u32)
        ensures
            w == self.width,
    {
        self.width
    }

    /// Number of rows.
    pub fn height(&self) -> (h: u32)
        ensures
            h == self.height,
    {
        self.height
    }

    /// Read access to the packed cell buffer.
    pub fn cells(&self) -> (r: &Vec<Cell>)
        ensures
            r@ == self.cells@,
    {
        &self.cells
    }

    /// The dead and alive values of the entire universe, as a slice.
    pub fn get_cells(&self) -> (r: &[Cell])
        ensures
            r@ == self.cells@,
    {
        self.cells.as_slice()
    }

    /// Set the width of the universe and reinitialize every cell to the
    /// dead state at the new size (intentional data loss on resize; the
    /// height is kept). Zero is rejected with [`GridError::DomainError`]
    /// and the grid is left untouched.
    pub fn set_width(&mut self, width: u32) -> (r: Result<(), GridError>)
        requires
            old(self).wf(),
            width as int * old(self).height as int <= usize::MAX as int,
        ensures
            r is Ok <==> 1 <= width,
            match r {
                Ok(()) => final(self).wf() && final(self).width == width && final(self).height
                    == old(self).height && all_dead(final(self).cells@),
                Err(e) => e == GridError::DomainError && *final(self) == *old(self),
            },
    {
        if width == 0 {
            return Err(GridError::DomainError);
        }
        let size = (width as usize) * (self.height as usize);
        self.cells = dead_cells(size);
        self.width = width;
        Ok(())
    }

    /// Set the height of the universe and reinitialize every cell to the
    /// dead state at the new size (intentional data loss on resize; the
    /// width is kept). Zero is rejected with [`GridError::DomainError`]
    /// and the grid is left untouched.
    pub fn set_height(&mut self, height: u32) -> (r: Result<(), GridError>)
        requires
            old(self).wf(),
            old(self).width as int * height as int <= usize::MAX as int,
        ensures
            r is Ok <==> 1 <= height,
            match r {
                Ok(()) => final(self).wf() && final(self).width == old(self).width
                    && final(self).height == height && all_dead(final(self).cells@),
                Err(e) => e == GridError::DomainError && *final(self) == *old(self),
            },
    {
        if height == 0 {
            return Err(GridError::DomainError);
        }
        let size = (self.width as usize) * (height as usize);
        self.cells = dead_cells(size);
        self.height = height;
        Ok(())
    }

    /// Flip exactly one cell's state; every other cell and both
    /// dimensions are unchanged. Out-of-bounds coordinates are a caller
    /// bug, excluded by precondition.
    pub fn toggle_cell(&mut self, row: u32, column: u32)
        requires
            old(self).wf(),
            row < old(self).height,
            column < old(self).width,
        ensures
            final(self).wf(),
            final(self).width == old(self).width,
            final(self).height == old(self).height,
            final(self).cells@ == toggled(
                old(self).cells@,
                index_of(row as int, column as int, old(self).width as int),
            ),
    {
        let idx = self.get_index(row, column);
        let mut c = self.cells[idx];
        c.toggle();
        self.cells[idx] = c;
    }

    /// Reseed the grid with the `random` pattern from the injected
    /// draws at the current dimensions.
    pub fn reset(&mut self, draws: &Vec<bool>)
        requires
            old(self).wf(),
            draws@.len() == old(self).width as int * old(self).height as int,
        ensures
            final(self).wf(),
            final(self).width == old(self).width,
            final(self).height == old(self).height,
            final(self).cells@ == random_cells_of(draws@),
    {
        self.cells = random(draws);
    }

    /// Set every cell dead; dimensions unchanged.
    pub fn clear(&mut self)
        requires
            old(self).wf(),
        ensures
            final(self).wf(),
            final(self).width == old(self).width,
            final(self).height == old(self).height,
            all_dead(final(self).cells@),
    {
        let size = self.cells.len();
        self.cells = dead_cells(size);
    }

    /// Set one cell alive at (row + dr, column + dc), each coordinate
    /// wrapped modulo its dimension.
    fn set_alive_wrapped(&mut self, row: u32, dr: u32, column: u32, dc: u32)
        requires
            old(self).wf(),
            row < old(self).height,
            column < old(self).width,
            dr <= 2,
            dc <= 2,
        ensures
            final(self).wf(),
            final(self).width == old(self).width,
            final(self).height == old(self).height,
            final(self).cells@ == old(self).cells@.update(
                index_of(
                    wrap_add(row as int, dr as int, old(self).height as int),
                    wrap_add(column as int, dc as int, old(self).width as int),
                    old(self).width as int,
                ),
                Cell::Alive,
            ),
    {
        let r2 = (((row as u64) + (dr as u64)) % (self.height as u64)) as u32;
        let c2 = (((column as u64) + (dc as u64)) % (self.width as u64)) as u32;
        let idx = self.get_index(r2, c2);
        self.cells[idx] = Cell::Alive;
    }

    /// Stamp the five-cell glider shape alive with its anchor at
    /// (row, column): the same shape as the `space_ship` seed, offset to
    /// the anchor, each cell addressed with toroidal wrap-around. The
    /// stamp is additive: no other cell changes.
    pub fn glider(&mut self, row: u32, column: u32)
        requires
            old(self).wf(),
            row < old(self).height,
            column < old(self).width,
        ensures
            final(self).wf(),
            final(self).width == old(self).width,
            final(self).height == old(self).height,
            final(self).cells@ == glider_stamped(
                old(self).cells@,
                old(self).width as int,
                old(self).height as int,
                row as int,
                column as int,
            ),
    {
        self.set_alive_wrapped(row, 0, column, 1);
        self.set_alive_wrapped(row, 1, column, 2);
        self.set_alive_wrapped(row, 2, column, 0);
        self.set_alive_wrapped(row, 2, column, 1);
        self.set_alive_wrapped(row, 2, column, 2);
    }

    /// Deliberately without effect: no canonical pulsar shape is defined
    /// for this grid, so the call leaves the universe unchanged.
    pub fn pulsar(&mut self, row: u32, column: u32)
        ensures
            *final(self) == *old(self),
    {
        let _ = row;
        let _ = column;
    }

    /// Set each listed (row, column) position alive. Additive: cells not
    /// listed keep their state, and dimensions are unchanged.
    /// Out-of-bounds coordinates are a caller bug, excluded by
    /// precondition.
    pub fn set_cells(&mut self, coords: &Vec<(u32, u32)>)
        requires
            old(self).wf(),
            forall|k: int|
                0 <= k < coords@.len() ==> (#[trigger] coords@[k]).0 < old(self).height
                    && coords@[k].1 < old(self).width,
        ensures
            final(self).wf(),
            final(self).width == old(self).width,
            final(self).height == old(self).height,
            forall|r: int, c: int|
                0 <= r < old(self).height as int && 0 <= c < old(self).width as int
                    ==> #[trigger] cell_at(final(self).cells@, old(self).width as int, r, c) == (
                if coord_listed(coords@, r, c) {
                    Cell::Alive
                } else {
                    cell_at(old(self).cells@, old(self).width as int, r, c)
                }),
    {
        let width = self.width;
        let height = self.height;
        let ghost orig: Seq<Cell> = self.cells@;
        let mut k: usize = 0;
        while k < coords.len()
            invariant
                self.wf(),
                self.width == width,
                self.height == height,
                self.cells@.len() == orig.len(),
                k <= coords@.len(),
                forall|j: int|
                    0 <= j < coords@.len() ==> (#[trigger] coords@[j]).0 < height && coords@[j].1
                        < width,
                forall|r: int, c: int|
                    0 <= r < height as int && 0 <= c < width as int ==> #[trigger] cell_at(
                        self.cells@,
                        width as int,
                        r,
                        c,
                    ) == (if coord_listed(coords@.take(k as int), r, c) {
                        Cell::Alive
                    } else {
                        cell_at(orig, width as int, r, c)
                    }),
            decreases coords@.len() - k,
        {
            let (row, col) = coords[k];
            let idx = self.get_index(row, col);
            let ghost before: Seq<Cell> = self.cells@;
            self.cells[idx] = Cell::Alive;
            proof {
                assert forall|r: int, c: int|
                    0 <= r < height as int && 0 <= c < width as int implies #[trigger] cell_at(
                    self.cells@,
                    width as int,
                    r,
                    c,
                ) == (if coord_listed(coords@.take(k as int + 1), r, c) {
                    Cell::Alive
                } else {
                    cell_at(orig, width as int, r, c)
                }) by {
                    lemma_coord_listed_step(coords@, k as int, r, c);
                    lemma_index_in_range(r, c, width as int, height as int);
                    if r == row as int && c == col as int {
                        assert(cell_at(self.cells@, width as int, r, c) == Cell::Alive);
                    } else {
                        if index_of(r, c, width as int) == index_of(
                            row as int,
                            col as int,
                            width as int,
                        ) {
                            lemma_index_injective(
                                r,
                                c,
                                row as int,
                                col as int,
                                width as int,
                                height as int,
                            );
                        }
                        assert(cell_at(self.cells@, width as int, r, c) == cell_at(
                            before,
                            width as int,
                            r,
                            c,
                        ));
                    }
                }
            }
            k = k + 1;
        }
        proof {
            assert(coords@.take(coords@.len() as int) == coords@);
        }
    }
}

} // verus!

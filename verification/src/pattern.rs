//! Pattern seeding: produces the initial packed cell buffer of a grid.
//!
//! Three named patterns exist. `default` is a fixed arithmetic texture,
//! `random` fills each cell from an injected sequence of uniform draws
//! (the caller supplies the draws, so the generator itself is a pure
//! function), and `space_ship` places a fixed five-cell glider-like seed
//! anchored at the grid's top-left corner. Any other name is rejected
//! with [`GridError::InvalidArgument`].

use vstd::prelude::*;

use crate::cell::Cell;
use crate::error::GridError;

verus! {

/// A named generation strategy, resolved once at grid construction or
/// reset; invalid names are rejected at the string boundary by
/// [`pattern_from_name`].
#[derive(Clone, Copy, Debug, PartialEq, Eq, Structural)]
pub enum Pattern {
    /// Cell `i` is alive iff `i % 2 == 0` or `i % 7 == 0`.
    Default,
    /// Each cell is alive iff the corresponding injected draw is true.
    Random,
    /// All dead except a fixed five-cell shape at the top-left corner.
    SpaceShip,
}

/// State of cell `i` under the `default` pattern.
pub open spec fn default_cell(i: int) -> Cell {
    if i % 2 == 0 || i % 7 == 0 {
        Cell::Alive
    } else {
        Cell::Dead
    }
}

/// The whole `default` buffer of a given size.
pub open spec fn default_cells_of(size: nat) -> Seq<Cell> {
    Seq::new(size, |i: int| default_cell(i))
}

/// The `random` buffer determined by a sequence of uniform draws: one
/// cell per draw, alive iff the draw is true.
pub open spec fn random_cells_of(draws: Seq<bool>) -> Seq<Cell> {
    Seq::new(draws.len(), |i: int| if draws[i] {
        Cell::Alive
    } else {
        Cell::Dead
    })
}

/// Whether flat index `i` belongs to the five-cell space-ship seed on a
/// grid of the given width: row 0 column 1, row 1 column 2, and row 2
/// columns 0 through 2.
pub open spec fn ship_index(i: int, width: int) -> bool {
    ||| i == 1
    ||| i == width + 2
    ||| i == 2 * width
    ||| i == 2 * width + 1
    ||| i == 2 * width + 2
}

/// The whole `space_ship` buffer of a given size and width.
pub open spec fn ship_cells_of(size: nat, width: int) -> Seq<Cell> {
    Seq::new(size, |i: int| if ship_index(i, width) {
        Cell::Alive
    } else {
        Cell::Dead
    })
}

/// The buffer each pattern produces from a size, a width and the
/// injected draws (the draws matter only to [`Pattern::Random`]).
pub open spec fn pattern_cells_of(p: Pattern, size: nat, width: int, draws: Seq<bool>) -> Seq<
    Cell,
> {
    match p {
        Pattern::Default => default_cells_of(size),
        Pattern::Random => random_cells_of(draws),
        Pattern::SpaceShip => ship_cells_of(size, width),
    }
}

/// The pattern a name denotes, or `None` for an unknown name.
pub open spec fn spec_pattern_of(name: Seq<char>) -> Option<Pattern> {
    if name == "default"@ {
        Some(Pattern::Default)
    } else if name == "random"@ {
        Some(Pattern::Random)
    } else if name == "space_ship"@ {
        Some(Pattern::SpaceShip)
    } else {
        None
    }
}

/// Build the `default` buffer: cell `i` is alive iff `i % 2 == 0` or
/// `i % 7 == 0`, independent of the grid's width.
pub fn default(size: usize) -> (cells: Vec<Cell>)
    ensures
        cells@ == default_cells_of(size as nat),
{
    let mut cells: Vec<Cell> = Vec::new();
    let mut i: usize = 0;
    while i < size
        invariant
            i <= size,
            cells@.len() == i as int,
            forall|j: int| 0 <= j < i ==> cells@[j] == default_cell(j),
        decreases size - i,
    {
        if i % 2 == 0 || i % 7 == 0 {
            cells.push(Cell::Alive);
        } else {
            cells.push(Cell::Dead);
        }
        i = i + 1;
    }
    proof {
        assert(cells@ =~= default_cells_of(size as nat));
    }
    cells
}

/// Build the `random` buffer from injected uniform draws: one cell per
/// draw, alive iff the draw is true.
pub fn random(draws: &Vec<bool>) -> (cells: Vec<Cell>)
    ensures
        cells@ == random_cells_of(draws@),
{
    let mut cells: Vec<Cell> = Vec::new();
    let mut i: usize = 0;
    while i < draws.len()
        invariant
            i <= draws@.len(),
            cells@.len() == i as int,
            forall|j: int| 0 <= j < i ==> cells@[j] == random_cells_of(draws@)[j],
        decreases draws@.len() - i,
    {
        if draws[i] {
            cells.push(Cell::Alive);
        } else {
            cells.push(Cell::Dead);
        }
        i = i + 1;
    }
    proof {
        assert(cells@ =~= random_cells_of(draws@));
    }
    cells
}

/// Build the `space_ship` buffer: all dead except the five seed cells.
/// The grid must be at least three columns wide and deep enough for the
/// seed's third row.
pub fn space_ship(size: usize, width: usize) -> (cells: Vec<Cell>)
    requires
        3 <= width,
        2 * width + 2 < size,
    ensures
        cells@ == ship_cells_of(size as nat, width as int),
{
    let mut cells: Vec<Cell> = Vec::new();
    let mut i: usize = 0;
    while i < size
        invariant
            i <= size,
            cells@.len() == i as int,
            forall|j: int| 0 <= j < i ==> cells@[j] == Cell::Dead,
        decreases size - i,
    {
        cells.push(Cell::Dead);
        i = i + 1;
    }

    cells[1] = Cell::Alive;
    cells[width + 2] = Cell::Alive;
    cells[2 * width] = Cell::Alive;
    cells[2 * width + 1] = Cell::Alive;
    cells[2 * width + 2] = Cell::Alive;

    proof {
        assert(cells@ =~= ship_cells_of(size as nat, width as int));
    }
    cells
}

/// Resolve a caller-supplied pattern name; an unknown name fails fast
/// with [`GridError::InvalidArgument`] and no buffer is produced.
pub fn pattern_from_name(name: &str) -> (r: Result<Pattern, GridError>)
    ensures
        match r {
            Ok(p) => spec_pattern_of(name@) == Some(p),
            Err(e) => spec_pattern_of(name@) is None && e == GridError::InvalidArgument,
        },
{
    let n: String = name.to_owned();
    if n == "default".to_owned() {
        Ok(Pattern::Default)
    } else if n == "random".to_owned() {
        Ok(Pattern::Random)
    } else if n == "space_ship".to_owned() {
        Ok(Pattern::SpaceShip)
    } else {
        Err(GridError::InvalidArgument)
    }
}

/// Build the buffer of a resolved pattern.
pub fn generate(pattern: Pattern, size: usize, width: usize, draws: &Vec<bool>) -> (cells: Vec<
    Cell,
>)
    requires
        pattern is SpaceShip ==> 3 <= width && 2 * width + 2 < size,
        pattern is Random ==> draws@.len() == size as int,
    ensures
        cells@ == pattern_cells_of(pattern, size as nat, width as int, draws@),
        cells@.len() == size as int,
{
    match pattern {
        Pattern::Default => default(size),
        Pattern::Random => random(draws),
        Pattern::SpaceShip => space_ship(size, width),
    }
}

/// Build the buffer of a pattern given by name, resolving the name
/// first: the string-boundary form of [`generate`].
pub fn create_cells(cell_type: &str, size: usize, width: usize, draws: &Vec<bool>) -> (r: Result<
    Vec<Cell>,
    GridError,
>)
    requires
        cell_type@ == "space_ship"@ ==> 3 <= width && 2 * width + 2 < size,
        cell_type@ == "random"@ ==> draws@.len() == size as int,
    ensures
        match r {
            Ok(cells) => match spec_pattern_of(cell_type@) {
                Some(p) => cells@ == pattern_cells_of(p, size as nat, width as int, draws@)
                    && cells@.len() == size as int,
                None => false,
            },
            Err(e) => spec_pattern_of(cell_type@) is None && e == GridError::InvalidArgument,
        },
{
    let pattern = match pattern_from_name(cell_type) {
        Ok(p) => p,
        Err(e) => {
            return Err(e);
        },
    };
    Ok(generate(pattern, size, width, draws))
}

} // verus!

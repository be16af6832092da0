//! General properties of the grid, stated once for every grid and proved.

use vstd::prelude::*;

use crate::cell::Cell;
use crate::pattern::ship_cells_of;
use crate::universe::{
    all_alive, all_dead, cell_at, index_of, lemma_index_in_range, lemma_index_injective,
    live_count, neighbor_total, next_at, toggled, wrap_dec, wrap_inc,
};

verus! {

/// The five live positions of the space-ship seed, by coordinates:
/// (row 0, col 1), (row 1, col 2), and (row 2, cols 0..2).
pub open spec fn ship_coord(r: int, c: int) -> bool {
    ||| (r == 0 && c == 1)
    ||| (r == 1 && c == 2)
    ||| (r == 2 && c == 0)
    ||| (r == 2 && c == 1)
    ||| (r == 2 && c == 2)
}

/// The live positions of the glider one generation after the seed.
spec fn glider_phase_one(r: int, c: int) -> bool {
    ||| (r == 1 && c == 0)
    ||| (r == 1 && c == 2)
    ||| (r == 2 && c == 1)
    ||| (r == 2 && c == 2)
    ||| (r == 3 && c == 1)
}

/// The live positions of the glider two generations after the seed.
spec fn glider_phase_two(r: int, c: int) -> bool {
    ||| (r == 1 && c == 2)
    ||| (r == 2 && c == 0)
    ||| (r == 2 && c == 2)
    ||| (r == 3 && c == 1)
    ||| (r == 3 && c == 2)
}

/// The live positions of the glider three generations after the seed.
spec fn glider_phase_three(r: int, c: int) -> bool {
    ||| (r == 1 && c == 1)
    ||| (r == 2 && c == 2)
    ||| (r == 2 && c == 3)
    ||| (r == 3 && c == 1)
    ||| (r == 3 && c == 2)
}

/// On an all-dead grid every position counts zero live neighbors, so a
/// cleared grid answers zero anywhere, corners and edges included.
pub proof fn lemma_cleared_neighbors_zero(
    cells: Seq<Cell>,
    width: int,
    height: int,
    row: int,
    col: int,
)
    requires
        1 <= width,
        1 <= height,
        cells.len() == width * height,
        all_dead(cells),
        0 <= row < height,
        0 <= col < width,
    ensures
        neighbor_total(cells, width, height, row, col) == 0,
{
    let north = wrap_dec(row, height);
    let south = wrap_inc(row, height);
    let west = wrap_dec(col, width);
    let east = wrap_inc(col, width);
    lemma_index_in_range(north, west, width, height);
    lemma_index_in_range(north, col, width, height);
    lemma_index_in_range(north, east, width, height);
    lemma_index_in_range(row, west, width, height);
    lemma_index_in_range(row, east, width, height);
    lemma_index_in_range(south, west, width, height);
    lemma_index_in_range(south, col, width, height);
    lemma_index_in_range(south, east, width, height);
}

/// No spontaneous life: one generation step on an all-dead grid leaves
/// every position dead.
pub proof fn lemma_no_spontaneous_life(cells: Seq<Cell>, width: int, height: int)
    requires
        1 <= width,
        1 <= height,
        cells.len() == width * height,
        all_dead(cells),
    ensures
        forall|r: int, c: int|
            0 <= r < height && 0 <= c < width ==> #[trigger] next_at(cells, width, height, r, c)
                is Dead,
{
    assert forall|r: int, c: int|
        0 <= r < height && 0 <= c < width implies #[trigger] next_at(cells, width, height, r, c)
        is Dead by {
        lemma_cleared_neighbors_zero(cells, width, height, r, c);
        lemma_index_in_range(r, c, width, height);
    }
}

/// An all-dead buffer holds zero live cells, so the population of the
/// generation after an all-dead grid sums to zero.
pub proof fn lemma_all_dead_live_count_zero(cells: Seq<Cell>)
    requires
        all_dead(cells),
    ensures
        live_count(cells) == 0,
    decreases cells.len(),
{
    if cells.len() > 0 {
        assert forall|i: int| 0 <= i < cells.drop_last().len() implies cells.drop_last()[i]
            is Dead by {
            assert(cells.drop_last()[i] == cells[i]);
        }
        lemma_all_dead_live_count_zero(cells.drop_last());
    }
}

/// An isolated live cell — one with zero live neighbors — is dead after
/// one generation step (underpopulation).
pub proof fn lemma_isolated_cell_dies(
    cells: Seq<Cell>,
    width: int,
    height: int,
    row: int,
    col: int,
)
    requires
        1 <= width,
        1 <= height,
        cells.len() == width * height,
        0 <= row < height,
        0 <= col < width,
        cell_at(cells, width, row, col) is Alive,
        neighbor_total(cells, width, height, row, col) == 0,
    ensures
        next_at(cells, width, height, row, col) is Dead,
{
}

/// Toggling the same position twice restores the original buffer exactly:
/// the toggled cell returns to its old state and no other cell ever moved.
pub proof fn lemma_toggle_twice_restores(cells: Seq<Cell>, i: int)
    requires
        0 <= i < cells.len(),
    ensures
        toggled(toggled(cells, i), i) == cells,
{
    assert(toggled(toggled(cells, i), i) =~= cells);
}

/// On a fully-alive grid every position counts exactly eight live
/// neighbors, for any position, confirming the toroidal wrap at grid
/// corners and edges.
pub proof fn lemma_full_grid_neighbors_eight(
    cells: Seq<Cell>,
    width: int,
    height: int,
    row: int,
    col: int,
)
    requires
        1 <= width,
        1 <= height,
        cells.len() == width * height,
        all_alive(cells),
        0 <= row < height,
        0 <= col < width,
    ensures
        neighbor_total(cells, width, height, row, col) == 8,
{
    let north = wrap_dec(row, height);
    let south = wrap_inc(row, height);
    let west = wrap_dec(col, width);
    let east = wrap_inc(col, width);
    lemma_index_in_range(north, west, width, height);
    lemma_index_in_range(north, col, width, height);
    lemma_index_in_range(north, east, width, height);
    lemma_index_in_range(row, west, width, height);
    lemma_index_in_range(row, east, width, height);
    lemma_index_in_range(south, west, width, height);
    lemma_index_in_range(south, col, width, height);
    lemma_index_in_range(south, east, width, height);
}

/// First generation step of the glider on a torus of at least 5 x 5:
/// a buffer whose live set is the seed steps to a buffer whose live set
/// is phase one. The lemmas below continue through the later phases.
#[verifier::rlimit(100)]
#[verifier::spinoff_prover]
proof fn lemma_glider_step_one(s: Seq<Cell>, t: Seq<Cell>, w: int, h: int)
    requires
        5 <= w,
        5 <= h,
        forall|r: int, c: int|
            0 <= r < h && 0 <= c < w ==> ((#[trigger] cell_at(s, w, r, c)) is Alive <==> ship_coord(
                r,
                c,
            )),
        forall|r: int, c: int|
            0 <= r < h && 0 <= c < w ==> #[trigger] cell_at(t, w, r, c) == next_at(s, w, h, r, c),
    ensures
        forall|r: int, c: int|
            0 <= r < h && 0 <= c < w ==> ((#[trigger] cell_at(t, w, r, c))
                is Alive <==> glider_phase_one(r, c)),
{
    assert forall|r: int, c: int| 0 <= r < h && 0 <= c < w implies ((#[trigger] cell_at(
        t,
        w,
        r,
        c,
    )) is Alive <==> glider_phase_one(r, c)) by {
        let north = wrap_dec(r, h);
        let south = wrap_inc(r, h);
        let west = wrap_dec(c, w);
        let east = wrap_inc(c, w);
        assert(cell_at(s, w, north, west) is Alive <==> ship_coord(north, west));
        assert(cell_at(s, w, north, c) is Alive <==> ship_coord(north, c));
        assert(cell_at(s, w, north, east) is Alive <==> ship_coord(north, east));
        assert(cell_at(s, w, r, west) is Alive <==> ship_coord(r, west));
        assert(cell_at(s, w, r, east) is Alive <==> ship_coord(r, east));
        assert(cell_at(s, w, south, west) is Alive <==> ship_coord(south, west));
        assert(cell_at(s, w, south, c) is Alive <==> ship_coord(south, c));
        assert(cell_at(s, w, south, east) is Alive <==> ship_coord(south, east));
        assert(cell_at(s, w, r, c) is Alive <==> ship_coord(r, c));
        assert(cell_at(t, w, r, c) == next_at(s, w, h, r, c));
    }
}

/// Second generation step of the glider, from phase one to phase two.
#[verifier::rlimit(100)]
#[verifier::spinoff_prover]
proof fn lemma_glider_step_two(s: Seq<Cell>, t: Seq<Cell>, w: int, h: int)
    requires
        5 <= w,
        5 <= h,
        forall|r: int, c: int|
            0 <= r < h && 0 <= c < w ==> ((#[trigger] cell_at(s, w, r, c))
                is Alive <==> glider_phase_one(r, c)),
        forall|r: int, c: int|
            0 <= r < h && 0 <= c < w ==> #[trigger] cell_at(t, w, r, c) == next_at(s, w, h, r, c),
    ensures
        forall|r: int, c: int|
            0 <= r < h && 0 <= c < w ==> ((#[trigger] cell_at(t, w, r, c))
                is Alive <==> glider_phase_two(r, c)),
{
    assert forall|r: int, c: int| 0 <= r < h && 0 <= c < w implies ((#[trigger] cell_at(
        t,
        w,
        r,
        c,
    )) is Alive <==> glider_phase_two(r, c)) by {
        let north = wrap_dec(r, h);
        let south = wrap_inc(r, h);
        let west = wrap_dec(c, w);
        let east = wrap_inc(c, w);
        assert(cell_at(s, w, north, west) is Alive <==> glider_phase_one(north, west));
        assert(cell_at(s, w, north, c) is Alive <==> glider_phase_one(north, c));
        assert(cell_at(s, w, north, east) is Alive <==> glider_phase_one(north, east));
        assert(cell_at(s, w, r, west) is Alive <==> glider_phase_one(r, west));
        assert(cell_at(s, w, r, east) is Alive <==> glider_phase_one(r, east));
        assert(cell_at(s, w, south, west) is Alive <==> glider_phase_one(south, west));
        assert(cell_at(s, w, south, c) is Alive <==> glider_phase_one(south, c));
        assert(cell_at(s, w, south, east) is Alive <==> glider_phase_one(south, east));
        assert(cell_at(s, w, r, c) is Alive <==> glider_phase_one(r, c));
        assert(cell_at(t, w, r, c) == next_at(s, w, h, r, c));
    }
}

/// Third generation step of the glider, from phase two to phase three.
#[verifier::rlimit(100)]
#[verifier::spinoff_prover]
proof fn lemma_glider_step_three(s: Seq<Cell>, t: Seq<Cell>, w: int, h: int)
    requires
        5 <= w,
        5 <= h,
        forall|r: int, c: int|
            0 <= r < h && 0 <= c < w ==> ((#[trigger] cell_at(s, w, r, c))
                is Alive <==> glider_phase_two(r, c)),
        forall|r: int, c: int|
            0 <= r < h && 0 <= c < w ==> #[trigger] cell_at(t, w, r, c) == next_at(s, w, h, r, c),
    ensures
        forall|r: int, c: int|
            0 <= r < h && 0 <= c < w ==> ((#[trigger] cell_at(t, w, r, c))
                is Alive <==> glider_phase_three(r, c)),
{
    assert forall|r: int, c: int| 0 <= r < h && 0 <= c < w implies ((#[trigger] cell_at(
        t,
        w,
        r,
        c,
    )) is Alive <==> glider_phase_three(r, c)) by {
        let north = wrap_dec(r, h);
        let south = wrap_inc(r, h);
        let west = wrap_dec(c, w);
        let east = wrap_inc(c, w);
        assert(cell_at(s, w, north, west) is Alive <==> glider_phase_two(north, west));
        assert(cell_at(s, w, north, c) is Alive <==> glider_phase_two(north, c));
        assert(cell_at(s, w, north, east) is Alive <==> glider_phase_two(north, east));
        assert(cell_at(s, w, r, west) is Alive <==> glider_phase_two(r, west));
        assert(cell_at(s, w, r, east) is Alive <==> glider_phase_two(r, east));
        assert(cell_at(s, w, south, west) is Alive <==> glider_phase_two(south, west));
        assert(cell_at(s, w, south, c) is Alive <==> glider_phase_two(south, c));
        assert(cell_at(s, w, south, east) is Alive <==> glider_phase_two(south, east));
        assert(cell_at(s, w, r, c) is Alive <==> glider_phase_two(r, c));
        assert(cell_at(t, w, r, c) == next_at(s, w, h, r, c));
    }
}

/// Fourth generation step of the glider: from phase three to the seed
/// translated by one row down and one column right.
#[verifier::rlimit(100)]
#[verifier::spinoff_prover]
proof fn lemma_glider_step_four(s: Seq<Cell>, t: Seq<Cell>, w: int, h: int)
    requires
        5 <= w,
        5 <= h,
        forall|r: int, c: int|
            0 <= r < h && 0 <= c < w ==> ((#[trigger] cell_at(s, w, r, c))
                is Alive <==> glider_phase_three(r, c)),
        forall|r: int, c: int|
            0 <= r < h && 0 <= c < w ==> #[trigger] cell_at(t, w, r, c) == next_at(s, w, h, r, c),
    ensures
        forall|r: int, c: int|
            0 <= r < h && 0 <= c < w ==> ((#[trigger] cell_at(t, w, r, c))
                is Alive <==> ship_coord(r - 1, c - 1)),
{
    assert forall|r: int, c: int| 0 <= r < h && 0 <= c < w implies ((#[trigger] cell_at(
        t,
        w,
        r,
        c,
    )) is Alive <==> ship_coord(r - 1, c - 1)) by {
        let north = wrap_dec(r, h);
        let south = wrap_inc(r, h);
        let west = wrap_dec(c, w);
        let east = wrap_inc(c, w);
        assert(cell_at(s, w, north, west) is Alive <==> glider_phase_three(north, west));
        assert(cell_at(s, w, north, c) is Alive <==> glider_phase_three(north, c));
        assert(cell_at(s, w, north, east) is Alive <==> glider_phase_three(north, east));
        assert(cell_at(s, w, r, west) is Alive <==> glider_phase_three(r, west));
        assert(cell_at(s, w, r, east) is Alive <==> glider_phase_three(r, east));
        assert(cell_at(s, w, south, west) is Alive <==> glider_phase_three(south, west));
        assert(cell_at(s, w, south, c) is Alive <==> glider_phase_three(south, c));
        assert(cell_at(s, w, south, east) is Alive <==> glider_phase_three(south, east));
        assert(cell_at(s, w, r, c) is Alive <==> glider_phase_three(r, c));
        assert(cell_at(t, w, r, c) == next_at(s, w, h, r, c));
    }
}

/// Known oscillator check: the space-ship seed is the standard glider.
/// On a toroidal grid of at least 5 x 5 that starts as the seed, four
/// generation steps produce exactly the seed translated by one row down
/// and one column right — the same relative shape, displaced by
/// (+1, +1). With the seed anchored at the top-left corner of a grid at
/// least 5 x 5, no seed or translated position touches an edge, so the
/// toroidal wrap leaves the translated coordinates unchanged.
///
/// The buffers `s1` through `s4` are the four successive generations:
/// each is related to its predecessor exactly as `tick` relates its new
/// buffer to its old one, so chaining four `tick` calls discharges the
/// hypotheses.
#[verifier::rlimit(100)]
#[verifier::spinoff_prover]
pub proof fn lemma_glider_translates_in_four_ticks(
    s0: Seq<Cell>,
    s1: Seq<Cell>,
    s2: Seq<Cell>,
    s3: Seq<Cell>,
    s4: Seq<Cell>,
    w: int,
    h: int,
)
    requires
        5 <= w,
        5 <= h,
        s0 == ship_cells_of((w * h) as nat, w),
        forall|r: int, c: int|
            0 <= r < h && 0 <= c < w ==> #[trigger] cell_at(s1, w, r, c) == next_at(s0, w, h, r, c),
        forall|r: int, c: int|
            0 <= r < h && 0 <= c < w ==> #[trigger] cell_at(s2, w, r, c) == next_at(s1, w, h, r, c),
        forall|r: int, c: int|
            0 <= r < h && 0 <= c < w ==> #[trigger] cell_at(s3, w, r, c) == next_at(s2, w, h, r, c),
        forall|r: int, c: int|
            0 <= r < h && 0 <= c < w ==> #[trigger] cell_at(s4, w, r, c) == next_at(s3, w, h, r, c),
    ensures
        forall|r: int, c: int|
            0 <= r < h && 0 <= c < w ==> ((#[trigger] cell_at(s4, w, r, c))
                is Alive <==> ship_coord(r - 1, c - 1)),
{
    assert forall|r: int, c: int| 0 <= r < h && 0 <= c < w implies ((#[trigger] cell_at(
        s0,
        w,
        r,
        c,
    )) is Alive <==> ship_coord(r, c)) by {
        lemma_index_in_range(r, c, w, h);
        if index_of(r, c, w) == index_of(0, 1, w) {
            lemma_index_injective(r, c, 0, 1, w, h);
        }
        if index_of(r, c, w) == index_of(1, 2, w) {
            lemma_index_injective(r, c, 1, 2, w, h);
        }
        if index_of(r, c, w) == index_of(2, 0, w) {
            lemma_index_injective(r, c, 2, 0, w, h);
        }
        if index_of(r, c, w) == index_of(2, 1, w) {
            lemma_index_injective(r, c, 2, 1, w, h);
        }
        if index_of(r, c, w) == index_of(2, 2, w) {
            lemma_index_injective(r, c, 2, 2, w, h);
        }
    }
    lemma_glider_step_one(s0, s1, w, h);
    lemma_glider_step_two(s1, s2, w, h);
    lemma_glider_step_three(s2, s3, w, h);
    lemma_glider_step_four(s3, s4, w, h);
}

} // verus!

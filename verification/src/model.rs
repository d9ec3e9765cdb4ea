//! The mathematical model of the engine: what a generation step, the border
//! reseeding pass, and a resize do to the flat cell buffer.

use vstd::prelude::*;

use crate::grid::Cell;

verus! {

/// Flat-index arithmetic in the engine is 32-bit unsigned and wraps: any
/// computed neighbor index is reduced modulo `2^32`.
pub open spec fn wrap32(x: int) -> int {
    x % 0x1_0000_0000
}

/// 1 for a live cell, 0 for a dead one.
pub open spec fn live(c: Cell) -> int {
    match c {
        Cell::Alive => 1,
        Cell::Dead => 0,
    }
}

/// A lookup that treats any index outside the buffer as a dead cell.
pub open spec fn live_at(cells: Seq<Cell>, i: int) -> int {
    if 0 <= i < cells.len() {
        live(cells[i])
    } else {
        0
    }
}

/// The live count over the eight Moore neighbors of flat index `idx`, each
/// neighbor index computed with wrapping 32-bit arithmetic and resolved to
/// dead when it addresses no real slot. Left/right neighbors of edge cells
/// deliberately bleed into the previous/next row: that is how flat-index
/// arithmetic behaves and the border passes are designed around it.
pub open spec fn neighbor_total(cells: Seq<Cell>, width: int, idx: int) -> int {
    live_at(cells, wrap32(idx - width - 1)) + live_at(cells, wrap32(idx - width)) + live_at(
        cells,
        wrap32(idx - width + 1),
    ) + live_at(cells, wrap32(idx - 1)) + live_at(cells, wrap32(idx + 1)) + live_at(
        cells,
        wrap32(idx + width - 1),
    ) + live_at(cells, wrap32(idx + width)) + live_at(cells, wrap32(idx + width + 1))
}

/// The generation rule, applied to a cell's current state and its live
/// neighbor count: a live cell with two or three live neighbors survives, a
/// dead cell with exactly three live neighbors is born, everything else dies.
pub open spec fn next_cell(c: Cell, n: int) -> Cell {
    if (c is Alive && (n == 2 || n == 3)) || (c is Dead && n == 3) {
        Cell::Alive
    } else {
        Cell::Dead
    }
}

/// One full generation computed from a snapshot of the buffer.
pub open spec fn next_generation(cells: Seq<Cell>, width: int) -> Seq<Cell> {
    Seq::new(cells.len(), |i: int| next_cell(cells[i], neighbor_total(cells, width, i)))
}

/// The flat indices a reseeding pass forces dead: the leftmost cell of every
/// row up to row `upto`.
pub open spec fn reseed_clears(i: int, width: int, upto: int) -> bool {
    width > 0 && i % width == 0 && i / width <= upto
}

/// The flat indices a reseeding pass may hand a fresh random state: the last
/// three columns of rows 1 through `upto`.
pub open spec fn reseed_randomizes(i: int, width: int, upto: int) -> bool {
    width > 0 && 1 <= i / width <= upto && i % width >= width - 3
}

/// What one border-reseeding pass does to the buffer. For every interior row
/// `r` (rows 1 through `height - 2`) the pass forces the leftmost cell of
/// the row above dead and redraws some of the last three cells of row `r`
/// at random, with geometrically decaying probability moving inward. So:
/// the leftmost cells of rows 0 through `height - 3` end dead, the last
/// three columns of interior rows end in some unspecified state, and every
/// other cell keeps its state.
pub open spec fn reseed_rel(before: Seq<Cell>, after: Seq<Cell>, width: int, height: int) -> bool {
    &&& after.len() == before.len()
    &&& forall|i: int|
        0 <= i < after.len() && !reseed_clears(i, width, height - 3) && !reseed_randomizes(
            i,
            width,
            height - 2,
        ) ==> after[i] == before[i]
    &&& forall|i: int|
        0 <= i < after.len() && reseed_clears(i, width, height - 3) ==> after[i] is Dead
}

/// The flat indices whose cells a step forces dead after the generation
/// rule: the leftmost cell of every row but the last.
pub open spec fn left_cleared(i: int, width: int, height: int) -> bool {
    width > 0 && i % width == 0 && i / width < height - 1
}

/// The buffer with the leftmost cell of every row but the last forced dead.
pub open spec fn clear_left_column(cells: Seq<Cell>, width: int, height: int) -> Seq<Cell> {
    Seq::new(
        cells.len(),
        |i: int|
            if left_cleared(i, width, height) {
                Cell::Dead
            } else {
                cells[i]
            },
    )
}

/// Where the cell at flat index `i` of a resized buffer comes from. The
/// pattern is anchored to the right edge: new column `c` reads old column
/// `c - (new_width - old_width)` of the same row, so growing the width
/// inserts dead columns on the left and shrinking drops the leftmost old
/// columns; rows past the old height and columns with no old source start
/// dead.
pub open spec fn resized_cell(
    old_cells: Seq<Cell>,
    old_width: int,
    old_height: int,
    new_width: int,
    i: int,
) -> Cell {
    let r = i / new_width;
    let from = i % new_width - (new_width - old_width);
    if r < old_height && 0 <= from < old_width {
        old_cells[r * old_width + from]
    } else {
        Cell::Dead
    }
}

/// The whole buffer after a resize to `new_width * new_height` cells.
pub open spec fn resized_cells(
    old_cells: Seq<Cell>,
    old_width: int,
    old_height: int,
    new_width: int,
    new_height: int,
) -> Seq<Cell> {
    Seq::new(
        (new_width * new_height) as nat,
        |i: int| resized_cell(old_cells, old_width, old_height, new_width, i),
    )
}

/// For a flat index built as `r * width + c` with `c` a valid column,
/// division and remainder read the row and the column back.
pub proof fn lemma_flat_index(r: int, c: int, width: int)
    requires
        width > 0,
        0 <= c < width,
    ensures
        (r * width + c) / width == r,
        (r * width + c) % width == c,
{
    vstd::arithmetic::div_mod::lemma_fundamental_div_mod_converse(r * width + c, width, r, c);
}

/// Resizing to the grid's current dimensions preserves the buffer exactly:
/// every cell keeps its place and its state.
pub proof fn lemma_resize_same_dims(cells: Seq<Cell>, width: int, height: int)
    requires
        width >= 0,
        height >= 0,
        cells.len() == width * height,
    ensures
        resized_cells(cells, width, height, width, height) == cells,
{
    let out = resized_cells(cells, width, height, width, height);
    assert forall|i: int| 0 <= i < cells.len() implies out[i] == cells[i] by {
        assert(width > 0) by {
            if width == 0 {
                vstd::arithmetic::mul::lemma_mul_by_zero_is_zero(height);
            }
        }
        vstd::arithmetic::div_mod::lemma_mod_bound(i, width);
        vstd::arithmetic::div_mod::lemma_multiply_divide_lt(i, width, height);
        vstd::arithmetic::div_mod::lemma_fundamental_div_mod(i, width);
    }
    assert(out =~= cells);
}

/// The generation rule, read off the next generation pointwise: a cell with
/// exactly three live neighbors in the snapshot is alive afterward, a live
/// cell with two live neighbors stays alive, a live cell whose count is
/// outside {2, 3} is dead afterward, and so is a dead cell whose count is
/// not 3.
pub proof fn lemma_generation_rule(cells: Seq<Cell>, width: int, i: int)
    requires
        0 <= i < cells.len(),
    ensures
        next_generation(cells, width).len() == cells.len(),
        neighbor_total(cells, width, i) == 3 ==> next_generation(cells, width)[i] is Alive,
        cells[i] is Alive && neighbor_total(cells, width, i) == 2 ==> next_generation(
            cells,
            width,
        )[i] is Alive,
        cells[i] is Alive && neighbor_total(cells, width, i) != 2 && neighbor_total(cells, width, i)
            != 3 ==> next_generation(cells, width)[i] is Dead,
        cells[i] is Dead && neighbor_total(cells, width, i) != 3 ==> next_generation(
            cells,
            width,
        )[i] is Dead,
{
}

/// What the reseeding pass can and cannot touch. The bottom row is never
/// modified; in the top row only the leftmost cell can change, and only by
/// being forced dead; and every other change is either the leftmost cell of
/// a row above the last two forced dead, or a redraw inside the last three
/// columns of an interior row.
pub proof fn lemma_reseed_footprint(before: Seq<Cell>, after: Seq<Cell>, width: int, height: int)
    requires
        reseed_rel(before, after, width, height),
        before.len() == width * height,
        width >= 0,
        height >= 1,
    ensures
        forall|i: int| width * (height - 1) <= i < width * height ==> after[i] == before[i],
        forall|i: int| 1 <= i < width ==> after[i] == before[i],
        forall|i: int|
            0 <= i < width * height && after[i] != before[i] ==> (i % width == 0 && i / width
                <= height - 3 && after[i] is Dead) || (1 <= i / width <= height - 2 && width - 3
                <= i % width),
{
    assert forall|i: int|
        width * (height - 1) <= i < width * height implies after[i] == before[i] by {
        assert(width > 0) by {
            if width == 0 {
                vstd::arithmetic::mul::lemma_mul_by_zero_is_zero(height as int);
                vstd::arithmetic::mul::lemma_mul_by_zero_is_zero(height - 1);
            }
        }
        vstd::arithmetic::mul::lemma_mul_is_distributive_sub(width, height, 1);
        vstd::arithmetic::div_mod::lemma_fundamental_div_mod_converse(
            i,
            width,
            height - 1,
            i - width * (height - 1),
        );
        assert(!reseed_clears(i, width, height - 3));
        assert(!reseed_randomizes(i, width, height - 2));
    }
    assert forall|i: int| 1 <= i < width implies after[i] == before[i] by {
        vstd::arithmetic::mul::lemma_mul_inequality(1, height, width);
        vstd::arithmetic::mul::lemma_mul_is_commutative(height, width);
        assert(i < width * height);
        vstd::arithmetic::div_mod::lemma_fundamental_div_mod_converse(i, width, 0, i);
        assert(!reseed_clears(i, width, height - 3));
        assert(!reseed_randomizes(i, width, height - 2));
    }
}

/// Shifting by a full turn of the 32-bit index space changes nothing.
pub proof fn lemma_wrap32_cycle(x: int)
    ensures
        wrap32(x + 0x1_0000_0000) == wrap32(x),
{
    vstd::arithmetic::div_mod::lemma_mod_add_multiples_vanish(x, 0x1_0000_0000);
}

} // verus!

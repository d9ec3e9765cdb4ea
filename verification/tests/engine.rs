use life_grid::Cell;
use life_grid::Universe;

#[test]
fn new_grid_is_all_dead() {
    let u = Universe::new(3, 2);
    assert_eq!(u.width(), 3);
    assert_eq!(u.height(), 2);
    let cells = u.cells();
    assert_eq!(cells.len(), 6);
    for i in 0..6 {
        assert_eq!(cells[i], Cell::Dead);
    }
}

#[test]
fn zero_dimensions_are_legal() {
    let u = Universe::new(0, 5);
    assert_eq!(u.cells().len(), 0);
    let v = Universe::new(4, 0);
    assert_eq!(v.cells().len(), 0);
    let mut w = Universe::new(0, 0);
    w.tick();
    assert_eq!(w.cells().len(), 0);
}

#[test]
fn set_cells_marks_coordinates_alive() {
    let mut u = Universe::new(4, 3);
    u.set_cells(&vec![(0, 1), (2, 3), (2, 3)]);
    let cells = u.cells();
    for r in 0..3u32 {
        for c in 0..4u32 {
            let expect = (r == 0 && c == 1) || (r == 2 && c == 3);
            let got = cells[(r * 4 + c) as usize] == Cell::Alive;
            assert_eq!(got, expect);
        }
    }
}

// A two-row grid has no interior rows, so a step is fully deterministic:
// only the generation rule and the left-column clear apply. The top row
// starts fully alive; under the rule the counts are 2, 2, 2, 3, 3, 2 for
// flat indices 0 through 5, so everything but the last cell would be alive,
// and the clear then kills the top-left cell.
#[test]
fn deterministic_step_without_interior_rows() {
    let mut u = Universe::new(3, 2);
    u.set_cells(&vec![(0, 0), (0, 1), (0, 2)]);
    u.tick();
    let cells = u.cells();
    let want = [
        Cell::Dead,
        Cell::Alive,
        Cell::Alive,
        Cell::Alive,
        Cell::Alive,
        Cell::Dead,
    ];
    for i in 0..6 {
        assert_eq!(cells[i], want[i]);
    }
}

// Whatever the random draws did, after a step the buffer keeps its length
// and the left column of every row but the last is dead.
#[test]
fn step_clears_left_column_of_all_rows_but_last() {
    let mut u = Universe::new(5, 5);
    u.set_cells(&vec![(1, 1), (2, 2), (3, 3)]);
    u.tick();
    let cells = u.cells();
    assert_eq!(cells.len(), 25);
    for r in 0..4u32 {
        assert_eq!(cells[(r * 5) as usize], Cell::Dead);
    }
}

// Growing the width anchors the old pattern to the right edge: the two new
// columns on the left are dead and the old 2x2 pattern sits in the
// rightmost two columns of each row.
#[test]
fn resize_growth_anchors_pattern_right() {
    let mut u = Universe::new(2, 2);
    u.set_cells(&vec![(0, 0), (1, 1)]);
    u.resize(4, 2);
    let cells = u.cells();
    assert_eq!(cells.len(), 8);
    let want = [
        Cell::Dead,
        Cell::Dead,
        Cell::Alive,
        Cell::Dead,
        Cell::Dead,
        Cell::Dead,
        Cell::Dead,
        Cell::Alive,
    ];
    for i in 0..8 {
        assert_eq!(cells[i], want[i]);
    }
}

// Shrinking the width drops the leftmost old columns and keeps the rest in
// place against the right edge.
#[test]
fn resize_shrink_drops_leftmost_columns() {
    let mut u = Universe::new(4, 2);
    u.set_cells(&vec![(0, 0), (0, 3), (1, 2)]);
    u.resize(2, 2);
    let cells = u.cells();
    assert_eq!(cells.len(), 4);
    assert_eq!(cells[0], Cell::Dead);
    assert_eq!(cells[1], Cell::Alive);
    assert_eq!(cells[2], Cell::Alive);
    assert_eq!(cells[3], Cell::Dead);
}

#[test]
fn resize_taller_adds_dead_rows() {
    let mut u = Universe::new(2, 1);
    u.set_cells(&vec![(0, 1)]);
    u.resize(2, 3);
    let cells = u.cells();
    assert_eq!(cells.len(), 6);
    assert_eq!(cells[0], Cell::Dead);
    assert_eq!(cells[1], Cell::Alive);
    for i in 2..6 {
        assert_eq!(cells[i], Cell::Dead);
    }
}

// Resizing to the current dimensions preserves the buffer exactly.
#[test]
fn resize_same_dimensions_preserves_buffer() {
    let mut u = Universe::new(3, 3);
    u.set_cells(&vec![(0, 1), (1, 0), (2, 2)]);
    let before = u.cells().clone();
    u.resize(3, 3);
    assert_eq!(u.cells(), &before);
}

// The flat-index bleed: with only (row 1, col 0) alive in a 3x3 grid, the
// cell at (row 0, col 2) sees it through `idx + 1`, which crosses the row
// boundary, so its count is 1. The cell at (row 2, col 1) has it as a true
// upper-left neighbor (count 1), while its below-row lookups fall off the
// buffer and resolve to dead.
#[test]
fn neighbor_count_bleeds_across_row_edges() {
    let mut u = Universe::new(3, 3);
    u.set_cells(&vec![(1, 0)]);
    assert_eq!(u.live_neighbor_count(2), 1);
    assert_eq!(u.live_neighbor_count(7), 1);
}

// An index far outside the buffer has all eight lookups miss.
#[test]
fn neighbor_count_out_of_range_is_zero() {
    let mut u = Universe::new(3, 3);
    u.set_cells(&vec![(1, 0)]);
    assert_eq!(u.live_neighbor_count(100), 0);
}

// With fewer than three rows there are no interior rows, so the reseeding
// pass changes nothing at all.
#[test]
fn reseed_border_without_interior_rows_is_noop() {
    let mut u = Universe::new(4, 2);
    u.set_cells(&vec![(0, 0), (0, 3), (1, 1)]);
    let before = u.cells().clone();
    u.random();
    assert_eq!(u.cells(), &before);
}

// The reseeding footprint on a fully alive 5x4 grid: the leftmost cells of
// rows 0 and 1 are forced dead; the last row, the rest of the top row, the
// leftmost cell of row 2, and columns 1 of rows 1 and 2 keep their state;
// only the last three columns of the interior rows may have been redrawn.
#[test]
fn reseed_border_touches_only_its_footprint() {
    let mut u = Universe::new(5, 4);
    let mut coords: Vec<(u32, u32)> = Vec::new();
    for r in 0..4u32 {
        for c in 0..5u32 {
            coords.push((r, c));
        }
    }
    u.set_cells(&coords);
    u.random();
    let cells = u.cells();
    assert_eq!(cells[0], Cell::Dead);
    assert_eq!(cells[5], Cell::Dead);
    for c in 1..5usize {
        assert_eq!(cells[c], Cell::Alive);
    }
    for c in 0..5usize {
        assert_eq!(cells[15 + c], Cell::Alive);
    }
    assert_eq!(cells[10], Cell::Alive);
    assert_eq!(cells[6], Cell::Alive);
    assert_eq!(cells[11], Cell::Alive);
}

// A single-row grid: no reseeding, no rows to clear, and every cell keeps
// to the rule alone.
#[test]
fn single_row_grid_steps_by_rule_alone() {
    let mut u = Universe::new(5, 1);
    u.set_cells(&vec![(0, 1), (0, 2), (0, 3)]);
    u.tick();
    let cells = u.cells();
    // in one row every lookup but `idx - 1` and `idx + 1` falls off the
    // buffer, so only cell 2 (with two live neighbors) survives.
    assert_eq!(cells[0], Cell::Dead);
    assert_eq!(cells[1], Cell::Dead);
    assert_eq!(cells[2], Cell::Alive);
    assert_eq!(cells[3], Cell::Dead);
    assert_eq!(cells[4], Cell::Dead);
}

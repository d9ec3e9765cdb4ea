//! The grid engine: the cell buffer with its dimensions and the operations
//! the host drives it with.

use vstd::prelude::*;

use crate::model::clear_left_column;
use crate::model::left_cleared;
use crate::model::lemma_flat_index;
use crate::model::lemma_wrap32_cycle;
use crate::model::live_at;
use crate::model::neighbor_total;
use crate::model::next_cell;
use crate::model::next_generation;
use crate::model::reseed_clears;
use crate::model::reseed_randomizes;
use crate::model::reseed_rel;
use crate::model::resized_cell;
use crate::model::resized_cells;
use crate::model::wrap32;
use crate::rng::coin_flip;

verus! {

/// `wrap32(idx + add)` computed on machine integers.
fn wrapped_add(idx: u32, add: u64) -> (r: u32)
    requires
        add < 0x2_0000_0000,
    ensures
        r as int == wrap32(idx as int + add as int),
{
    (((idx as u64) + add) % 0x1_0000_0000u64) as u32
}

/// A cell of the grid: dead or alive.
#[derive(Clone, Copy, Debug, PartialEq, Eq, Structural)]
pub enum Cell {
    Dead,
    Alive,
}

/// The engine: a flat, row-major buffer of cells. The cell at row `r`,
/// column `c` lives at flat index `r * width + c`.
pub struct Universe {
    pub width: u32,
    pub height: u32,
    pub cells: Vec<Cell>,
}

impl Universe {
    /// The buffer always holds exactly `width * height` cells, and that
    /// product always fits the 32-bit index arithmetic the engine uses.
    pub open spec fn wf(self) -> bool {
        &&& self.cells@.len() == self.width * self.height
        &&& self.width * self.height <= u32::MAX
    }

    /// A fresh grid of the given dimensions, all cells dead. Zero dimensions
    /// are legal and yield an empty buffer.
    pub fn new(width: u32, height: u32) -> (u: Universe)
        requires
            width * height <= u32::MAX,
        ensures
            u.wf(),
            u.width == width,
            u.height == height,
            forall|i: int| 0 <= i < u.cells@.len() ==> u.cells@[i] is Dead,
    {
        let n: usize = (width as usize) * (height as usize);
        let mut cells: Vec<Cell> = Vec::new();
        #[verifier::loop_isolation(false)]
        while cells.len() < n
            invariant
                cells@.len() <= n,
                forall|i: int| 0 <= i < cells@.len() ==> cells@[i] is Dead,
            decreases n - cells@.len(),
        {
            cells.push(Cell::Dead);
        }
        Universe { width, height, cells }
    }

    /// Replace the buffer with one of the new dimensions, re-anchoring the
    /// existing pattern to the right edge: growing the width inserts dead
    /// columns on the left, shrinking drops the leftmost old columns, and
    /// rows or columns with no old source start dead.
    pub fn resize(&mut self, width: u32, height: u32)
        requires
            old(self).wf(),
            width * height <= u32::MAX,
        ensures
            final(self).wf(),
            final(self).width == width,
            final(self).height == height,
            final(self).cells@ == resized_cells(
                old(self).cells@,
                old(self).width as int,
                old(self).height as int,
                width as int,
                height as int,
            ),
    {
        let ow: u64 = self.width as u64;
        let n: usize = (width as usize) * (height as usize);
        let mut cells: Vec<Cell> = Vec::new();
        let mut i: usize = 0;
        #[verifier::loop_isolation(false)]
        while i < n
            invariant
                i == cells@.len() <= n,
                forall|j: int|
                    0 <= j < i ==> cells@[j] == resized_cell(
                        self.cells@,
                        self.width as int,
                        self.height as int,
                        width as int,
                        j,
                    ),
            decreases n - i,
        {
            proof {
                assert(width > 0) by {
                    if width == 0 {
                        vstd::arithmetic::mul::lemma_mul_by_zero_is_zero(height as int);
                    }
                }
                vstd::arithmetic::div_mod::lemma_mod_bound(i as int, width as int);
                vstd::arithmetic::div_mod::lemma_multiply_divide_lt(
                    i as int,
                    width as int,
                    height as int,
                );
                vstd::arithmetic::div_mod::lemma_fundamental_div_mod(i as int, width as int);
            }
            let r: u32 = (i as u32) / width;
            let c: u32 = (i as u32) % width;
            let in_rows = r < self.height;
            let has_source = c as u64 + ow >= width as u64 && (c as u64 + ow - width as u64) < ow;
            let v: Cell = if in_rows && has_source {
                let from: u64 = c as u64 + ow - width as u64;
                proof {
                    vstd::arithmetic::mul::lemma_mul_inequality(
                        r as int + 1,
                        self.height as int,
                        self.width as int,
                    );
                    vstd::arithmetic::mul::lemma_mul_is_distributive_add_other_way(
                        self.width as int,
                        r as int,
                        1,
                    );
                }
                let src: u64 = (r as u64) * ow + from;
                self.cells[src as usize]
            } else {
                Cell::Dead
            };
            cells.push(v);
            i += 1;
        }
        proof {
            assert(cells@ =~= resized_cells(
                self.cells@,
                self.width as int,
                self.height as int,
                width as int,
                height as int,
            ));
        }
        self.width = width;
        self.height = height;
        self.cells = cells;
    }

    /// A read-only view of the current buffer, for the host to render.
    pub fn cells(&self) -> (r: &Vec<Cell>)
        ensures
            r@ == self.cells@,
    {
        &self.cells
    }

    /// Mark each named `(row, column)` coordinate alive. Every coordinate
    /// must lie inside the current grid; all other cells keep their state.
    pub fn set_cells(&mut self, coords: &Vec<(u32, u32)>)
        requires
            old(self).wf(),
            forall|k: int|
                0 <= k < coords@.len() ==> (#[trigger] coords@[k]).0 < old(self).height
                    && coords@[k].1 < old(self).width,
        ensures
            final(self).wf(),
            final(self).width == old(self).width,
            final(self).height == old(self).height,
            forall|k: int|
                0 <= k < coords@.len() ==> final(self).cells@[(#[trigger] coords@[k]).0 * old(
                    self,
                ).width + coords@[k].1] is Alive,
            forall|i: int|
                0 <= i < final(self).cells@.len() && (forall|k: int|
                    0 <= k < coords@.len() ==> i != (#[trigger] coords@[k]).0 * old(self).width
                        + coords@[k].1) ==> final(self).cells@[i] == old(self).cells@[i],
    {
        let w = self.width;
        let h = self.height;
        let mut k: usize = 0;
        #[verifier::loop_isolation(false)]
        while k < coords.len()
            invariant
                k <= coords@.len(),
                self.width == w,
                self.height == h,
                self.cells@.len() == old(self).cells@.len(),
                forall|j: int|
                    0 <= j < k ==> self.cells@[(#[trigger] coords@[j]).0 * w + coords@[j].1]
                        is Alive,
                forall|i: int|
                    0 <= i < self.cells@.len() && (forall|j: int|
                        0 <= j < k ==> i != (#[trigger] coords@[j]).0 * w + coords@[j].1)
                        ==> self.cells@[i] == old(self).cells@[i],
            decreases coords@.len() - k,
        {
            let rc = coords[k];
            proof {
                vstd::arithmetic::mul::lemma_mul_inequality(rc.0 as int + 1, h as int, w as int);
                vstd::arithmetic::mul::lemma_mul_is_distributive_add_other_way(
                    w as int,
                    rc.0 as int,
                    1,
                );
                vstd::arithmetic::mul::lemma_mul_is_commutative(w as int, h as int);
            }
            let idx: u32 = rc.0 * w + rc.1;
            self.cells[idx as usize] = Cell::Alive;
            proof {
                assert forall|j: int|
                    0 <= j < k + 1 implies self.cells@[(#[trigger] coords@[j]).0 * w + coords@[j].1]
                    is Alive by {
                    vstd::arithmetic::mul::lemma_mul_inequality(
                        coords@[j].0 as int + 1,
                        h as int,
                        w as int,
                    );
                    vstd::arithmetic::mul::lemma_mul_is_distributive_add_other_way(
                        w as int,
                        coords@[j].0 as int,
                        1,
                    );
                    vstd::arithmetic::mul::lemma_mul_is_commutative(w as int, h as int);
                }
            }
            k = k + 1;
        }
    }

    /// The live contribution (1 or 0) of flat index `i`, with any index
    /// outside the buffer resolving to dead.
    fn live_value(&self, i: u32) -> (n: u8)
        ensures
            n as int == live_at(self.cells@, i as int),
    {
        if (i as usize) < self.cells.len() {
            if self.cells[i as usize] == Cell::Alive {
                1
            } else {
                0
            }
        } else {
            0
        }
    }

    /// The live count over the eight Moore neighbors of `idx`, computed as
    /// `idx ± {width-1, width, width+1}` and `idx ± 1` in wrapping 32-bit
    /// arithmetic; a computed index that addresses no real slot counts as
    /// dead. Left and right neighbors of edge cells bleed into the previous
    /// and next row, exactly as flat-index arithmetic makes them.
    pub fn live_neighbor_count(&self, idx: u32) -> (n: u8)
        requires
            self.wf(),
        ensures
            n as int == neighbor_total(self.cells@, self.width as int, idx as int),
    {
        let w: u64 = self.width as u64;
        let m: u64 = 0x1_0000_0000;
        proof {
            lemma_wrap32_cycle(idx as int - self.width as int - 1);
            lemma_wrap32_cycle(idx as int - self.width as int);
            lemma_wrap32_cycle(idx as int - self.width as int + 1);
            lemma_wrap32_cycle(idx as int - 1);
            lemma_wrap32_cycle(idx as int + self.width as int - 1);
        }
        let n1 = self.live_value(wrapped_add(idx, m - w - 1));
        let n2 = self.live_value(wrapped_add(idx, m - w));
        let n3 = self.live_value(wrapped_add(idx, m - w + 1));
        let n4 = self.live_value(wrapped_add(idx, m - 1));
        let n5 = self.live_value(wrapped_add(idx, 1));
        let n6 = self.live_value(wrapped_add(idx, w + m - 1));
        let n7 = self.live_value(wrapped_add(idx, w));
        let n8 = self.live_value(wrapped_add(idx, w + 1));
        n1 + n2 + n3 + n4 + n5 + n6 + n7 + n8
    }

    /// Advance one generation: run the border-reseeding pass, compute the
    /// next generation from a snapshot of the reseeded buffer, then force
    /// the leftmost cell of every row but the last dead. The reseeding runs
    /// first, so freshly reseeded cells take part in this step's neighbor
    /// counts; the left-column clear runs last, so the rule cannot revive
    /// those cells within the same step.
    pub fn tick(&mut self)
        requires
            old(self).wf(),
            old(self).height >= 3 ==> old(self).width >= 3,
        ensures
            final(self).wf(),
            final(self).width == old(self).width,
            final(self).height == old(self).height,
            exists|mid: Seq<Cell>|
                #[trigger] reseed_rel(
                    old(self).cells@,
                    mid,
                    old(self).width as int,
                    old(self).height as int,
                ) && final(self).cells@ == clear_left_column(
                    next_generation(mid, old(self).width as int),
                    old(self).width as int,
                    old(self).height as int,
                ),
            forall|i: int|
                0 <= i < final(self).cells@.len() && left_cleared(
                    i,
                    old(self).width as int,
                    old(self).height as int,
                ) ==> final(self).cells@[i] is Dead,
    {
        self.random();
        let ghost mid = self.cells@;
        let w = self.width;
        let h = self.height;
        let mut next: Vec<Cell> = Vec::new();
        let mut i: usize = 0;
        #[verifier::loop_isolation(false)]
        while i < self.cells.len()
            invariant
                i == next@.len() <= self.cells@.len(),
                forall|j: int|
                    0 <= j < i ==> next@[j] == next_cell(
                        mid[j],
                        neighbor_total(mid, w as int, j),
                    ),
            decreases self.cells@.len() - i,
        {
            let n = self.live_neighbor_count(i as u32);
            let cur = self.cells[i];
            let v: Cell = if n == 3 {
                Cell::Alive
            } else if n == 2 && cur == Cell::Alive {
                Cell::Alive
            } else {
                Cell::Dead
            };
            next.push(v);
            i += 1;
        }
        proof {
            assert(next@ =~= next_generation(mid, w as int));
        }
        self.cells = next;
        self.clear_left();
        proof {
            assert(self.cells@ =~= clear_left_column(
                next_generation(mid, w as int),
                w as int,
                h as int,
            ));
            assert(reseed_rel(old(self).cells@, mid, w as int, h as int));
        }
    }

    /// Force the leftmost cell of every row but the last dead.
    fn clear_left(&mut self)
        requires
            old(self).wf(),
        ensures
            final(self).wf(),
            final(self).width == old(self).width,
            final(self).height == old(self).height,
            final(self).cells@ == clear_left_column(
                old(self).cells@,
                old(self).width as int,
                old(self).height as int,
            ),
    {
        let w = self.width;
        let h = self.height;
        let mut r: u32 = 0;
        #[verifier::loop_isolation(false)]
        while r + 1 < h
            invariant
                h >= 1 ==> r <= h - 1,
                h == 0 ==> r == 0,
                self.width == w,
                self.height == h,
                self.cells@.len() == old(self).cells@.len(),
                forall|i: int|
                    0 <= i < self.cells@.len() && w > 0 && i % (w as int) == 0 && i / (w as int)
                        < r ==> self.cells@[i] is Dead,
                forall|i: int|
                    0 <= i < self.cells@.len() && !(w > 0 && i % (w as int) == 0 && i / (w as int)
                        < r) ==> self.cells@[i] == old(self).cells@[i],
            decreases h - r,
        {
            if w > 0 {
                let ghost pre = self.cells@;
                proof {
                    vstd::arithmetic::mul::lemma_mul_inequality(r as int + 1, h as int, w as int);
                    vstd::arithmetic::mul::lemma_mul_is_distributive_add_other_way(
                        w as int,
                        r as int,
                        1,
                    );
                    vstd::arithmetic::mul::lemma_mul_is_commutative(w as int, r as int);
                    lemma_flat_index(r as int, 0, w as int);
                }
                let left: u32 = r * w;
                self.cells[left as usize] = Cell::Dead;
                proof {
                    assert forall|i: int|
                        0 <= i < self.cells@.len() && !(w > 0 && i % (w as int) == 0 && i / (
                        w as int) < r + 1) implies self.cells@[i] == old(self).cells@[i] by {
                        vstd::arithmetic::div_mod::lemma_fundamental_div_mod(i, w as int);
                    }
                    assert forall|i: int|
                        0 <= i < self.cells@.len() && w > 0 && i % (w as int) == 0 && i / (w as int)
                            < r + 1 implies self.cells@[i] is Dead by {
                        vstd::arithmetic::div_mod::lemma_fundamental_div_mod(i, w as int);
                        if i / (w as int) < r as int {
                            assert(pre[i] is Dead);
                            assert(i != left as int);
                        } else {
                            assert(i / (w as int) == r as int);
                            assert(i == (w as int) * (i / (w as int)) + i % (w as int));
                            assert(i == (w as int) * (r as int));
                            assert(i == left as int);
                        }
                    }
                }
            }
            r = r + 1;
        }
        proof {
            assert(self.cells@ =~= clear_left_column(
                old(self).cells@,
                self.width as int,
                self.height as int,
            ));
        }
    }

    /// The border-reseeding pass: for every interior row `r` (rows 1 through
    /// `height - 2`), force the leftmost cell of the row above dead, draw a
    /// random state for the rightmost cell of row `r`, with probability 1/2
    /// also for its second-from-rightmost cell, and with probability 1/4
    /// also for its third-from-rightmost cell. Grids with interior rows must
    /// be at least three cells wide, so that those three cells exist.
    pub fn random(&mut self)
        requires
            old(self).wf(),
            old(self).height >= 3 ==> old(self).width >= 3,
        ensures
            final(self).wf(),
            final(self).width == old(self).width,
            final(self).height == old(self).height,
            reseed_rel(
                old(self).cells@,
                final(self).cells@,
                old(self).width as int,
                old(self).height as int,
            ),
    {
        let w = self.width;
        let h = self.height;
        let mut r: u32 = 1;
        #[verifier::loop_isolation(false)]
        while r + 1 < h
            invariant
                1 <= r,
                h >= 3 ==> r <= h - 1,
                h < 3 ==> r == 1,
                self.width == w,
                self.height == h,
                self.cells@.len() == old(self).cells@.len(),
                forall|i: int|
                    0 <= i < self.cells@.len() && !reseed_clears(i, w as int, r as int - 2)
                        && !reseed_randomizes(i, w as int, r as int - 1) ==> self.cells@[i] == old(
                        self,
                    ).cells@[i],
                forall|i: int|
                    0 <= i < self.cells@.len() && reseed_clears(i, w as int, r as int - 2)
                        ==> self.cells@[i] is Dead,
            decreases h - r,
        {
            proof {
                vstd::arithmetic::mul::lemma_mul_inequality(r as int + 1, h as int, w as int);
                vstd::arithmetic::mul::lemma_mul_is_distributive_add_other_way(
                    w as int,
                    r as int,
                    1,
                );
                vstd::arithmetic::mul::lemma_mul_is_distributive_sub_other_way(
                    w as int,
                    r as int,
                    1,
                );
                lemma_flat_index(r as int - 1, 0, w as int);
                lemma_flat_index(r as int, w as int - 1, w as int);
                lemma_flat_index(r as int, w as int - 2, w as int);
                lemma_flat_index(r as int, w as int - 3, w as int);
            }
            let ghost pre = self.cells@;
            let left: u32 = (r - 1) * w;
            let base: u32 = r * w;
            self.cells[left as usize] = Cell::Dead;
            let v1 = if coin_flip() {
                Cell::Alive
            } else {
                Cell::Dead
            };
            self.cells[(base + w - 1) as usize] = v1;
            if coin_flip() {
                let v2 = if coin_flip() {
                    Cell::Alive
                } else {
                    Cell::Dead
                };
                self.cells[(base + w - 2) as usize] = v2;
            }
            if coin_flip() && coin_flip() {
                let v3 = if coin_flip() {
                    Cell::Alive
                } else {
                    Cell::Dead
                };
                self.cells[(base + w - 3) as usize] = v3;
            }
            proof {
                assert forall|i: int|
                    0 <= i < self.cells@.len() && reseed_clears(
                        i,
                        w as int,
                        r as int - 1,
                    ) implies self.cells@[i] is Dead by {
                    vstd::arithmetic::div_mod::lemma_fundamental_div_mod(i, w as int);
                    if i / (w as int) <= r as int - 2 {
                        assert(reseed_clears(i, w as int, r as int - 2));
                        assert(pre[i] is Dead);
                        assert(i != left as int && i != base as int + w as int - 1 && i != base
                            as int + w as int - 2 && i != base as int + w as int - 3);
                    } else {
                        assert(i / (w as int) == r as int - 1);
                        assert(i == (w as int) * (i / (w as int)) + i % (w as int));
                        assert(i == (w as int) * (r as int - 1));
                        vstd::arithmetic::mul::lemma_mul_is_commutative(w as int, r as int - 1);
                        assert(i == left as int);
                    }
                }
                assert forall|i: int|
                    0 <= i < self.cells@.len() && !reseed_clears(i, w as int, r as int - 1)
                        && !reseed_randomizes(i, w as int, r as int) implies self.cells@[i] == old(
                    self,
                ).cells@[i] by {
                    vstd::arithmetic::div_mod::lemma_fundamental_div_mod(i, w as int);
                }
            }
            r = r + 1;
        }
        proof {
            if h < 3 {
                assert forall|i: int|
                    0 <= i < self.cells@.len() && !reseed_clears(i, w as int, h as int - 3)
                        && !reseed_randomizes(i, w as int, h as int - 2) implies self.cells@[i]
                    == old(self).cells@[i] by {
                    if w > 0 {
                        vstd::arithmetic::div_mod::lemma_div_pos_is_pos(i, w as int);
                    }
                }
                assert forall|i: int|
                    0 <= i < self.cells@.len() && reseed_clears(
                        i,
                        w as int,
                        h as int - 3,
                    ) implies self.cells@[i] is Dead by {
                    if w > 0 {
                        vstd::arithmetic::div_mod::lemma_div_pos_is_pos(i, w as int);
                    }
                }
            }
        }
    }

    /// The number of cells per row.
    pub fn width(&self) -> (w: u32)
        ensures
            w == self.width,
    {
        self.width
    }

    /// The number of rows.
    pub fn height(&self) -> (h: u32)
        ensures
            h == self.height,
    {
        self.height
    }
}

} // verus!

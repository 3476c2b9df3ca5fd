use vstd::prelude::*;
use crate::random::random_bool;
use crate::walker::{Walker, pair_at, lemma_pair_at};

verus! {

/// The one failure of a bounds-checked cell access.
#[derive(Debug, Clone, Copy, PartialEq, Eq, Structural)]
pub enum GridError {
    OutOfBounds,
}

/// One generation: a `width` x `height` grid of cells, stored row by row.
#[derive(Clone, Debug)]
pub struct Board {
    pub width: u32,
    pub height: u32,
    pub data: Vec<bool>,
}

/// `value` reduced into `[0, max]`: its remainder when it is non-negative, and
/// otherwise `max` plus its remainder truncated toward zero (which is `max`
/// itself when `max` divides `value`).
pub open spec fn wrap_spec(value: int, max: int) -> int {
    if value < 0 {
        max - ((-value) % max)
    } else {
        value % max
    }
}

pub open spec fn live_count(b: bool) -> int {
    if b {
        1
    } else {
        0
    }
}

/// The row offset of the `j`-th of the nine offsets `(-1, -1), (-1, 0), (-1, 1), (0, -1), ...`.
pub open spec fn offset_dx(j: int) -> int {
    if j < 3 {
        -1
    } else if j < 6 {
        0
    } else {
        1
    }
}

/// The column offset of the `j`-th of the nine offsets.
pub open spec fn offset_dy(j: int) -> int {
    j - 3 * (offset_dx(j) + 1) - 1
}

impl Board {
    /// Each cell has its slot.
    pub open spec fn wf(&self) -> bool {
        self.data@.len() == self.width * self.height
    }

    pub open spec fn in_bounds(&self, x: int, y: int) -> bool {
        0 <= x < self.width && 0 <= y < self.height
    }

    pub open spec fn index_of(&self, x: int, y: int) -> int {
        y * self.width + x
    }

    /// The cell at `(x, y)`, for `(x, y)` in bounds.
    pub open spec fn cell(&self, x: int, y: int) -> bool {
        self.data@[self.index_of(x, y)]
    }

    /// What a read at `(x, y)` sees. Without wrapping, off the grid is dead.
    /// With wrapping, both coordinates go through `wrap_spec`; a grid without
    /// cells, or a wrapped position past the last cell, reads dead.
    pub open spec fn cell_wrapped(&self, x: int, y: int, wrap: bool) -> bool {
        if !wrap {
            self.in_bounds(x, y) && self.cell(x, y)
        } else if self.width == 0 || self.height == 0 {
            false
        } else {
            let i = wrap_spec(y, self.height as int) * self.width + wrap_spec(x, self.width as int);
            i < self.data@.len() && self.data@[i]
        }
    }

    /// The number of live cells among the eight around `(x, y)`.
    pub open spec fn live_neighbors(&self, x: int, y: int, wrap: bool) -> int {
        live_count(self.cell_wrapped(x - 1, y - 1, wrap)) + live_count(
            self.cell_wrapped(x - 1, y, wrap),
        ) + live_count(self.cell_wrapped(x - 1, y + 1, wrap)) + live_count(
            self.cell_wrapped(x, y - 1, wrap),
        ) + live_count(self.cell_wrapped(x, y + 1, wrap)) + live_count(
            self.cell_wrapped(x + 1, y - 1, wrap),
        ) + live_count(self.cell_wrapped(x + 1, y, wrap)) + live_count(
            self.cell_wrapped(x + 1, y + 1, wrap),
        )
    }

    /// The live cells among the first `k` of the nine offsets, the centre left out.
    pub open spec fn neighbors_upto(&self, x: int, y: int, wrap: bool, k: int) -> int
        decreases k,
    {
        if k <= 0 {
            0
        } else {
            let j = k - 1;
            self.neighbors_upto(x, y, wrap, j) + if j == 4 {
                0
            } else {
                live_count(self.cell_wrapped(x + offset_dx(j), y + offset_dy(j), wrap))
            }
        }
    }

    pub proof fn lemma_index_in_range(&self, x: int, y: int)
        requires
            self.wf(),
            self.in_bounds(x, y),
        ensures
            0 <= self.index_of(x, y) < self.data@.len(),
    {
        let w = self.width as int;
        let h = self.height as int;
        assert(0 <= y * w + x < w * h) by (nonlinear_arith)
            requires
                0 <= x < w,
                0 <= y < h,
        ;
    }

    /// The position of `(x, y)` in `data`.
    fn flat_index(&self, x: u32, y: u32) -> (i: usize)
        requires
            self.wf(),
            self.in_bounds(x as int, y as int),
        ensures
            i == self.index_of(x as int, y as int),
            i < self.data@.len(),
    {
        let len = self.data.len();
        proof {
            self.lemma_index_in_range(x as int, y as int);
            let w = self.width as int;
            assert(0 <= y * w <= y * w + x) by (nonlinear_arith)
                requires
                    0 <= x,
                    0 <= y,
                    0 <= w,
            ;
            // the index, and so the product, stays below a length that fits in usize
            assert(y * w + x < len);
        }
        (y as usize) * (self.width as usize) + (x as usize)
    }

    /// Reduces a coordinate, negative values included, into `[0, max_value]`
    /// as `wrap_spec` says.
    pub fn wrap_coord(value: i64, max_value: u32) -> (r: u32)
        requires
            max_value > 0,
        ensures
            r == wrap_spec(value as int, max_value as int),
            r <= max_value,
    {
        let m = max_value as u64;
        if value < 0 {
            let magnitude: u64 = ((-(value + 1)) as u64) + 1;
            let rem: u64 = magnitude % m;
            (m - rem) as u32
        } else {
            ((value as u64) % m) as u32
        }
    }

    /// Reads `(x, y)`, wrapping the coordinates or treating off-grid cells as
    /// dead.
    pub fn at_wrap(&self, x: i64, y: i64, wrap_indexes: bool) -> (r: bool)
        requires
            self.wf(),
        ensures
            r == self.cell_wrapped(x as int, y as int, wrap_indexes),
    {
        if !wrap_indexes && (x < 0 || y < 0 || x >= (self.width as i64) || y
            >= (self.height as i64)) {
            return false;
        }
        let len = self.data.len();
        if !wrap_indexes {
            let i = self.flat_index(x as u32, y as u32);
            return self.data[i];
        }
        if self.width == 0 || self.height == 0 {
            return false;
        }
        let wy = Board::wrap_coord(y, self.height);
        let wx = Board::wrap_coord(x, self.width);
        let ghost w = self.width as int;
        let ghost h = self.height as int;
        if wy >= self.height {
            assert(wy * w + wx >= w * h) by (nonlinear_arith)
                requires
                    wy >= h,
                    0 <= wx,
                    0 <= w,
            ;
            return false;
        }
        assert(0 <= wy * w <= wy * w + wx <= w * h) by (nonlinear_arith)
            requires
                0 <= wx <= w,
                0 <= wy < h,
        ;
        let i = (wy as usize) * (self.width as usize) + (wx as usize);
        if i < len {
            self.data[i]
        } else {
            false
        }
    }

    /// Counts the live cells among the eight around `(x, y)`.
    pub fn count_neighbors(&self, x: u32, y: u32, wrap: bool) -> (r: i32)
        requires
            self.wf(),
        ensures
            r == self.live_neighbors(x as int, y as int, wrap),
            0 <= r <= 8,
    {
        let mut count: i32 = 0;
        let mut rel_x: i64 = -1;
        while rel_x <= 1
            invariant
                self.wf(),
                -1 <= rel_x <= 2,
                0 <= count <= 3 * (rel_x + 1),
                count == self.neighbors_upto(x as int, y as int, wrap, 3 * (rel_x + 1)),
            decreases 2 - rel_x,
        {
            let mut rel_y: i64 = -1;
            while rel_y <= 1
                invariant
                    self.wf(),
                    -1 <= rel_x <= 1,
                    -1 <= rel_y <= 2,
                    0 <= count <= 3 * (rel_x + 1) + rel_y + 1,
                    count == self.neighbors_upto(
                        x as int,
                        y as int,
                        wrap,
                        3 * (rel_x + 1) + rel_y + 1,
                    ),
                decreases 2 - rel_y,
            {
                let ghost j = 3 * (rel_x + 1) + rel_y + 1;
                assert(offset_dx(j) == rel_x && offset_dy(j) == rel_y);
                if !(rel_x == 0 && rel_y == 0) && self.at_wrap(
                    x as i64 + rel_x,
                    y as i64 + rel_y,
                    wrap,
                ) {
                    count += 1;
                }
                rel_y += 1;
            }
            rel_x += 1;
        }
        proof {
            reveal_with_fuel(Board::neighbors_upto, 10);
        }
        count
    }
    /// Reads `(x, y)`, failing when it is off the grid.
    pub fn at(&self, x: u32, y: u32) -> (r: Result<&bool, GridError>)
        requires
            self.wf(),
        ensures
            r is Ok <==> self.in_bounds(x as int, y as int),
            r is Ok ==> *r->Ok_0 == self.cell(x as int, y as int),
            r is Err ==> r->Err_0 == GridError::OutOfBounds,
    {
        if x < self.width && y < self.height {
            let i = self.flat_index(x, y);
            Ok(&self.data[i])
        } else {
            Err(GridError::OutOfBounds)
        }
    }

    /// The slot of the cell at `(x, y)`, which must be on the grid.
    pub fn at_mut(&mut self, x: u32, y: u32) -> (r: &mut bool)
        requires
            old(self).wf(),
            old(self).in_bounds(x as int, y as int),
        ensures
            *r == old(self).cell(x as int, y as int),
            final(self).width == old(self).width,
            final(self).height == old(self).height,
            final(self).data@ == old(self).data@.update(
                old(self).index_of(x as int, y as int),
                *final(r),
            ),
    {
        let i = self.flat_index(x, y);
        &mut self.data[i]
    }

    /// Writes `value` at `(x, y)`, failing when it is off the grid.
    pub fn set(&mut self, x: u32, y: u32, value: bool) -> (r: Result<(), GridError>)
        requires
            old(self).wf(),
        ensures
            r is Ok <==> old(self).in_bounds(x as int, y as int),
            r is Err ==> r->Err_0 == GridError::OutOfBounds,
            final(self).width == old(self).width,
            final(self).height == old(self).height,
            final(self).data@ == if r is Ok {
                old(self).data@.update(old(self).index_of(x as int, y as int), value)
            } else {
                old(self).data@
            },
    {
        if x < self.width && y < self.height {
            let slot = self.at_mut(x, y);
            *slot = value;
            Ok(())
        } else {
            Err(GridError::OutOfBounds)
        }
    }
    /// A fresh walk over every coordinate pair of the grid.
    pub fn walk(&self) -> (r: Walker)
        ensures
            r.wf(),
            r.width == self.width,
            r.height == self.height,
            r.x == 0,
            r.y == 0,
            r.position() == 0,
    {
        Walker::new(self.width, self.height)
    }

    /// Gives every cell a random state, drawn one per cell in row-major
    /// order. The size stays as it was.
    pub fn randomize(&mut self)
        requires
            old(self).wf(),
        ensures
            final(self).wf(),
            final(self).width == old(self).width,
            final(self).height == old(self).height,
    {
        let n = self.data.len();
        let mut cells: Vec<bool> = Vec::new();
        while cells.len() < n
            invariant
                cells@.len() <= n,
            decreases n - cells@.len(),
        {
            cells.push(random_bool());
        }
        self.fill(&cells);
    }

    /// Replaces every cell with the one at the same place in `cells`, which
    /// holds the grid row by row.
    pub fn fill(&mut self, cells: &Vec<bool>)
        requires
            old(self).wf(),
            cells@.len() == old(self).data@.len(),
        ensures
            final(self).wf(),
            final(self).width == old(self).width,
            final(self).height == old(self).height,
            final(self).data@ == cells@,
    {
        let n = cells.len();
        let mut i: usize = 0;
        while i < n
            invariant
                n == cells@.len(),
                self.data@.len() == n,
                self.width == old(self).width,
                self.height == old(self).height,
                0 <= i <= n,
                forall|k: int| 0 <= k < i ==> self.data@[k] == cells@[k],
            decreases n - i,
        {
            self.data.set(i, cells[i]);
            i = i + 1;
        }
        proof {
            assert(self.data@ =~= cells@);
        }
    }
}

} // verus!

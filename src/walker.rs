use vstd::prelude::*;
use vstd::arithmetic::div_mod::lemma_fundamental_div_mod_converse;

verus! {

/// The `k`-th coordinate pair, in row-major order, of a grid `width` cells wide.
pub open spec fn pair_at(width: int, k: int) -> (int, int) {
    (k % width, k / width)
}

/// Where the pair `(x, y)` stands in the walk over a grid `width` cells wide.
pub open spec fn walk_index(width: int, x: int, y: int) -> int {
    y * width + x
}

/// Every coordinate pair of a `width` x `height` grid, row by row.
pub open spec fn walk_seq(width: nat, height: nat) -> Seq<(int, int)> {
    Seq::new(width * height, |k: int| pair_at(width as int, k))
}

pub proof fn lemma_pair_at(width: int, x: int, y: int)
    requires
        0 <= x < width,
        0 <= y,
    ensures
        pair_at(width, y * width + x) == (x, y),
{
    lemma_fundamental_div_mod_converse(y * width + x, width, y, x);
}

/// Enumerates the coordinate pairs of a grid, row by row.
pub struct Walker {
    pub width: u32,
    pub height: u32,
    pub x: u32,
    pub y: u32,
}

impl Walker {
    /// The cursor is on the grid, or just past its last row.
    pub open spec fn wf(&self) -> bool {
        &&& self.y <= self.height
        &&& self.y < self.height && self.width > 0 ==> self.x < self.width
        &&& self.y == self.height ==> self.x == 0
        &&& self.width == 0 ==> self.x == 0
    }

    /// How many pairs have been handed out.
    pub open spec fn position(&self) -> int {
        self.y * self.width + self.x
    }

    /// How many pairs there are in all.
    pub open spec fn total(&self) -> int {
        self.width * self.height
    }

    pub proof fn lemma_position_bound(&self)
        requires
            self.wf(),
        ensures
            0 <= self.position() <= self.total(),
            self.position() == self.total() <==> (self.y == self.height || self.width == 0),
    {
        let w = self.width as int;
        let h = self.height as int;
        let x = self.x as int;
        let y = self.y as int;
        if y < h && w > 0 {
            assert(0 <= y * w + x < w * h) by (nonlinear_arith)
                requires
                    0 <= x < w,
                    0 <= y < h,
            ;
        } else if w == 0 {
            assert(y * w + x == 0 && w * h == 0) by (nonlinear_arith)
                requires
                    w == 0,
                    x == 0,
            ;
        } else {
            assert(y * w + x == w * h) by (nonlinear_arith)
                requires
                    y == h,
                    x == 0,
            ;
        }
    }

    pub fn new(width: u32, height: u32) -> (r: Walker)
        ensures
            r.wf(),
            r.width == width,
            r.height == height,
            r.x == 0,
            r.y == 0,
            r.position() == 0,
    {
        Walker { width, height, x: 0, y: 0 }
    }

    /// The next pair in row-major order, or `None` once every pair has been
    /// handed out.
    pub fn next(&mut self) -> (r: Option<(u32, u32)>)
        requires
            old(self).wf(),
        ensures
            final(self).wf(),
            final(self).width == old(self).width,
            final(self).height == old(self).height,
            r is None <==> old(self).position() >= old(self).total(),
            r is None ==> *final(self) == *old(self),
            r is Some ==> {
                &&& final(self).position() == old(self).position() + 1
                &&& r->Some_0 == (old(self).x, old(self).y)
                &&& (r->Some_0.0 as int, r->Some_0.1 as int) == pair_at(
                    old(self).width as int,
                    old(self).position(),
                )
                &&& old(self).in_grid()
            },
    {
        proof {
            self.lemma_position_bound();
        }
        if self.y >= self.height || self.width == 0 {
            return None;
        }
        let value = (self.x, self.y);
        proof {
            lemma_pair_at(self.width as int, self.x as int, self.y as int);
        }
        self.x = self.x + 1;
        if self.x == self.width {
            self.x = 0;
            self.y = self.y + 1;
        }
        proof {
            let w = self.width as int;
            assert((value.1 + 1) * w == value.1 * w + w) by (nonlinear_arith);
        }
        Some(value)
    }

    /// The cursor stands on a cell of the grid.
    pub open spec fn in_grid(&self) -> bool {
        self.x < self.width && self.y < self.height
    }
}

} // verus!

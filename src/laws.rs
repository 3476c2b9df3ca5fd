use vstd::prelude::*;
use vstd::arithmetic::div_mod::{lemma_fundamental_div_mod, lemma_mod_self_0, lemma_small_mod};
use crate::board::Board;
use crate::history::{HISTORY_CAPACITY, pushed};
use crate::rules::conway_cells;
use crate::walker::{lemma_pair_at, pair_at, walk_index, walk_seq};

verus! {

/// Advancing depends on the grid's size and cells alone: two grids that agree
/// on them have the same next generation.
pub proof fn lemma_advance_deterministic(a: Board, b: Board)
    requires
        a.wf(),
        b.wf(),
        a.width == b.width,
        a.height == b.height,
        a.data@ == b.data@,
    ensures
        conway_cells(&a) == conway_cells(&b),
{
    assert(conway_cells(&a) =~= conway_cells(&b));
}

/// With wrapping, column `-1` reads as the last column and column `width`
/// as the first. A grid one cell wide is left out: the wrap of `-1` is `1` there.
pub proof fn lemma_wrap_edges(b: Board)
    requires
        b.wf(),
        b.width != 1,
    ensures
        b.cell_wrapped(-1, 0, true) == b.cell_wrapped(b.width - 1, 0, true),
        b.cell_wrapped(b.width as int, 0, true) == b.cell_wrapped(0, 0, true),
{
    let w = b.width as int;
    if w > 1 {
        lemma_small_mod(1, w as nat);
        lemma_small_mod((w - 1) as nat, w as nat);
        lemma_mod_self_0(w);
        lemma_small_mod(0, w as nat);
    }
}

/// Without wrapping, the columns just left and just right of the grid are dead.
pub proof fn lemma_unwrapped_border_dead(b: Board, y: int)
    requires
        b.wf(),
    ensures
        !b.cell_wrapped(-1, y, false),
        !b.cell_wrapped(b.width as int, y, false),
{
}

/// The walk over a `width` x `height` grid has `width * height` pairs, all in
/// the grid, no two equal, and every cell of the grid among them.
pub proof fn lemma_walk_complete(width: nat, height: nat)
    ensures
        walk_seq(width, height).len() == width * height,
        forall|k: int|
            0 <= k < width * height ==> {
                let p = #[trigger] walk_seq(width, height)[k];
                0 <= p.0 < width && 0 <= p.1 < height
            },
        forall|i: int, j: int|
            0 <= i < width * height && 0 <= j < width * height && i != j ==> walk_seq(
                width,
                height,
            )[i] != walk_seq(width, height)[j],
        forall|x: int, y: int|
            0 <= x < width && 0 <= y < height ==> {
                let k = #[trigger] walk_index(width as int, x, y);
                0 <= k < width * height && walk_seq(width, height)[k] == (x, y)
            },
{
    let w = width as int;
    let h = height as int;
    assert forall|k: int| 0 <= k < w * h implies {
        let p = #[trigger] walk_seq(width, height)[k];
        0 <= p.0 < width && 0 <= p.1 < height
    } by {
        lemma_fundamental_div_mod(k, w);
        let q = k / w;
        let r = k % w;
        assert(0 <= r < w);
        assert(0 <= q < h) by (nonlinear_arith)
            requires
                k == w * q + r,
                0 <= r < w,
                0 <= k < w * h,
        ;
    }
    assert forall|i: int, j: int|
        0 <= i < w * h && 0 <= j < w * h && i != j implies walk_seq(width, height)[i]
        != walk_seq(width, height)[j] by {
        if w > 0 {
            lemma_fundamental_div_mod(i, w);
            lemma_fundamental_div_mod(j, w);
        }
    }
    assert forall|x: int, y: int| 0 <= x < w && 0 <= y < h implies {
        let k = #[trigger] walk_index(w, x, y);
        0 <= k < w * h && walk_seq(width, height)[k] == (x, y)
    } by {
        lemma_pair_at(w, x, y);
        assert(0 <= y * w + x < w * h) by (nonlinear_arith)
            requires
                0 <= x < w,
                0 <= y < h,
        ;
        assert(walk_seq(width, height)[y * w + x] == pair_at(w, y * w + x));
    }
}

/// The history that pushing each of `boards`, one at a time, leaves behind
/// from an empty one.
pub open spec fn after_pushes(boards: Seq<Board>) -> Seq<Board>
    decreases boards.len(),
{
    if boards.len() == 0 {
        Seq::empty()
    } else {
        pushed(after_pushes(boards.drop_last()), boards.last())
    }
}

/// Pushing boards one at a time keeps exactly the last `HISTORY_CAPACITY`
/// of them (all of them while there are fewer), in the order pushed.
pub proof fn lemma_history_keeps_last(boards: Seq<Board>)
    ensures
        after_pushes(boards) == boards.subrange(
            if boards.len() > HISTORY_CAPACITY {
                boards.len() - HISTORY_CAPACITY
            } else {
                0
            },
            boards.len() as int,
        ),
    decreases boards.len(),
{
    if boards.len() > 0 {
        lemma_history_keeps_last(boards.drop_last());
        let n = boards.len() as int;
        let start = if n > HISTORY_CAPACITY {
            n - HISTORY_CAPACITY
        } else {
            0
        };
        assert(after_pushes(boards) =~= boards.subrange(start, n));
    } else {
        assert(after_pushes(boards) =~= boards.subrange(0, 0));
    }
}

} // verus!

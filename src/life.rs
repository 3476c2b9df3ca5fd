use vstd::prelude::*;
use crate::board::Board;
use crate::rules::{Conway, Ruleset};

verus! {

/// A simulation: the current generation and the rule that advances it.
pub struct Life<R: Ruleset> {
    pub board: Board,
    pub rules: R,
}

impl<R: Ruleset> Life<R> {
    /// The generation after the current one, as a new grid; the current one
    /// is left as it is.
    pub fn next(&self) -> (r: Board)
        requires
            self.board.wf(),
        ensures
            r.wf(),
            r.width == self.board.width,
            r.height == self.board.height,
            r.data@ == self.rules.next_cells(&self.board),
    {
        self.rules.next(&self.board)
    }
}

/// A simulation under Conway's rule on a `width` x `height` grid of dead cells.
pub fn make_life(width: u32, height: u32) -> (r: Life<Conway>)
    requires
        width * height <= usize::MAX,
    ensures
        r.board.wf(),
        r.board.width == width,
        r.board.height == height,
        forall|i: int| 0 <= i < r.board.data@.len() ==> !#[trigger] r.board.data@[i],
{
    let n = (width as usize) * (height as usize);
    Life { board: Board { width, height, data: vec![false; n] }, rules: Conway }
}

} // verus!

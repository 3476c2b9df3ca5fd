use vstd::prelude::*;
use crate::board::Board;

verus! {

/// How many generations a history keeps.
pub const HISTORY_CAPACITY: usize = 10;

/// `boards` with `board` appended, the oldest dropped when that makes one too many.
pub open spec fn pushed(boards: Seq<Board>, board: Board) -> Seq<Board> {
    let all = boards.push(board);
    if all.len() > HISTORY_CAPACITY {
        all.drop_first()
    } else {
        all
    }
}

/// The last generations, oldest first, at most `HISTORY_CAPACITY` of them.
pub struct History {
    pub boards: Vec<Board>,
}

impl History {
    pub open spec fn wf(&self) -> bool {
        self.boards@.len() <= HISTORY_CAPACITY
    }

    pub fn new() -> (r: History)
        ensures
            r.wf(),
            r.boards@.len() == 0,
    {
        History { boards: Vec::new() }
    }

    /// Appends `board` as the newest generation, dropping the oldest when the
    /// history is over capacity.
    pub fn push(&mut self, board: Board)
        requires
            old(self).wf(),
        ensures
            final(self).wf(),
            final(self).boards@ == pushed(old(self).boards@, board),
    {
        self.boards.push(board);
        if self.boards.len() > HISTORY_CAPACITY {
            self.boards.remove(0);
        }
        proof {
            assert(self.boards@ =~= pushed(old(self).boards@, board));
        }
    }

    /// The generations held, oldest first.
    pub fn iterate(&self) -> (r: &Vec<Board>)
        ensures
            r@ == self.boards@,
    {
        &self.boards
    }

    pub fn len(&self) -> (r: usize)
        ensures
            r == self.boards@.len(),
    {
        self.boards.len()
    }
}

} // verus!

use vstd::prelude::*;
use crate::board::{Board, GridError};
use crate::walker::pair_at;

verus! {

/// Conway's decision for one cell: a live cell with two live neighbours
/// lives on, and any cell with three is live next; every other cell is dead.
pub open spec fn conway_spec(alive: bool, neighbors: int) -> bool {
    (alive && neighbors == 2) || neighbors == 3
}

/// The next state of the cell at `(x, y)` under Conway's rule, neighbours
/// counted with wrapping.
pub open spec fn conway_cell(board: &Board, x: int, y: int) -> bool {
    conway_spec(board.cell(x, y), board.live_neighbors(x, y, true))
}

/// Every cell of the next generation under Conway's rule, row by row.
pub open spec fn conway_cells(board: &Board) -> Seq<bool> {
    Seq::new(
        (board.width * board.height) as nat,
        |k: int|
            conway_cell(board, pair_at(board.width as int, k).0, pair_at(board.width as int, k).1),
    )
}

/// A rule that computes the next generation of a grid.
pub trait Ruleset {
    /// The cells of the generation that follows `board`.
    spec fn next_cells(&self, board: &Board) -> Seq<bool>;

    /// A new grid of the same size holding the next generation; `board` is
    /// only read.
    fn next(&self, board: &Board) -> (r: Board)
        requires
            board.wf(),
        ensures
            r.wf(),
            r.width == board.width,
            r.height == board.height,
            r.data@ == self.next_cells(board),
    ;
}

/// Conway's Game of Life on a wrapping grid.
pub struct Conway;

impl Conway {
    /// The next state of the cell at `(x, y)`, failing when it is off the grid.
    pub fn conway_rules(x: u32, y: u32, board: &Board) -> (r: Result<bool, GridError>)
        requires
            board.wf(),
        ensures
            r is Ok <==> board.in_bounds(x as int, y as int),
            r is Ok ==> r->Ok_0 == conway_cell(board, x as int, y as int),
            r is Err ==> r->Err_0 == GridError::OutOfBounds,
    {
        let neighbors = board.count_neighbors(x, y, true);
        let alive = match board.at(x, y) {
            Ok(v) => *v,
            Err(e) => return Err(e),
        };
        Ok(
            match (alive, neighbors) {
                (true, 2) => true,
                (_, 3) => true,
                _ => false,
            },
        )
    }
}

impl Ruleset for Conway {
    open spec fn next_cells(&self, board: &Board) -> Seq<bool> {
        conway_cells(board)
    }

    fn next(&self, board: &Board) -> (r: Board) {
        let n = board.data.len();
        let mut result = Board { width: board.width, height: board.height, data: vec![false; n] };
        let mut walker = board.walk();
        loop
            invariant
                board.wf(),
                result.wf(),
                result.width == board.width,
                result.height == board.height,
                walker.wf(),
                walker.width == board.width,
                walker.height == board.height,
                forall|i: int|
                    0 <= i < walker.position() ==> result.data@[i] == #[trigger] conway_cells(
                        board,
                    )[i],
            ensures
                walker.wf(),
                walker.width == board.width,
                walker.position() >= walker.total(),
            decreases walker.total() - walker.position(),
        {
            proof {
                walker.lemma_position_bound();
            }
            match walker.next() {
                Some((x, y)) => {
                    let next = match Conway::conway_rules(x, y, board) {
                        Ok(v) => v,
                        Err(_) => false,
                    };
                    let _ = result.set(x, y, next);
                },
                None => break,
            }
        }
        proof {
            walker.lemma_position_bound();
            assert(result.data@ =~= conway_cells(board));
        }
        result
    }
}

} // verus!

use conway_life::board::{Board, GridError};
use conway_life::history::{History, HISTORY_CAPACITY};
use conway_life::life::make_life;
use conway_life::rules::{Conway, Ruleset};
use conway_life::walker::Walker;

fn board_with(width: u32, height: u32, live: &[(u32, u32)]) -> Board {
    let mut board = make_life(width, height).board;
    for &(x, y) in live {
        board.set(x, y, true).unwrap();
    }
    board
}

fn alive(board: &Board, x: u32, y: u32) -> bool {
    *board.at(x, y).unwrap()
}

fn live_cells(board: &Board) -> Vec<(u32, u32)> {
    let mut out = Vec::new();
    let mut walker = board.walk();
    while let Some((x, y)) = walker.next() {
        if alive(board, x, y) {
            out.push((x, y));
        }
    }
    out
}

#[test]
fn single_cell_dies() {
    let life = conway_life::life::Life { board: board_with(5, 5, &[(2, 2)]), rules: Conway };
    assert_eq!(life.board.count_neighbors(2, 2, false), 0);
    let next = life.next();
    assert!(!alive(&next, 2, 2));
    assert!(live_cells(&next).is_empty());
}

#[test]
fn l_shape_grows_corner() {
    let board = board_with(5, 5, &[(1, 1), (2, 1), (1, 2)]);
    assert_eq!(board.count_neighbors(2, 2, false), 3);
    assert_eq!(board.count_neighbors(1, 1, false), 2);
    let next = Conway.next(&board);
    assert!(alive(&next, 2, 2));
    assert!(alive(&next, 1, 1));
    assert_eq!(live_cells(&next), vec![(1, 1), (2, 1), (1, 2), (2, 2)]);
}

#[test]
fn block_is_still() {
    let cells = [(1, 1), (2, 1), (1, 2), (2, 2)];
    let board = board_with(5, 5, &cells);
    for &(x, y) in &cells {
        assert_eq!(board.count_neighbors(x, y, false), 3);
    }
    let next = Conway.next(&board);
    assert_eq!(live_cells(&next), vec![(1, 1), (2, 1), (1, 2), (2, 2)]);
}

#[test]
fn blinker_oscillates_on_wrapping_grid() {
    let board = board_with(5, 5, &[(0, 2), (4, 2), (1, 2)]);
    let next = Conway.next(&board);
    assert_eq!(live_cells(&next), vec![(0, 1), (0, 2), (0, 3)]);
    let back = Conway.next(&next);
    assert_eq!(live_cells(&back), vec![(0, 2), (1, 2), (4, 2)]);
}

#[test]
fn advance_is_deterministic_and_keeps_size() {
    let mut board = make_life(7, 4).board;
    board.randomize();
    let a = Conway.next(&board);
    let b = Conway.next(&board);
    assert_eq!(a.data, b.data);
    assert_eq!(a.width, 7);
    assert_eq!(a.height, 4);
    assert_eq!(a.data.len(), 28);
}

#[test]
fn conway_table() {
    let board = board_with(5, 5, &[(1, 1), (2, 1), (3, 1)]);
    // dead with three neighbours is born; live with two survives; live with one dies
    assert_eq!(Conway::conway_rules(2, 2, &board), Ok(true));
    assert_eq!(Conway::conway_rules(2, 1, &board), Ok(true));
    assert_eq!(Conway::conway_rules(1, 1, &board), Ok(false));
    assert_eq!(Conway::conway_rules(0, 0, &board), Ok(false));
    assert_eq!(Conway::conway_rules(5, 0, &board), Err(GridError::OutOfBounds));
    assert_eq!(Conway::conway_rules(0, 5, &board), Err(GridError::OutOfBounds));
}

#[test]
fn wrap_coord_values() {
    assert_eq!(Board::wrap_coord(-1, 5), 4);
    assert_eq!(Board::wrap_coord(-6, 5), 4);
    assert_eq!(Board::wrap_coord(-5, 5), 5);
    assert_eq!(Board::wrap_coord(0, 5), 0);
    assert_eq!(Board::wrap_coord(5, 5), 0);
    assert_eq!(Board::wrap_coord(12, 5), 2);
    assert_eq!(Board::wrap_coord(i64::MIN, 3), 1);
    assert_eq!(Board::wrap_coord(i64::MAX, 3), 1);
}

#[test]
fn wrapped_reads_at_edges() {
    let board = board_with(4, 3, &[(3, 0), (0, 2)]);
    assert_eq!(board.at_wrap(-1, 0, true), board.at_wrap(3, 0, true));
    assert!(board.at_wrap(-1, 0, true));
    assert_eq!(board.at_wrap(4, 0, true), board.at_wrap(0, 0, true));
    assert!(board.at_wrap(0, -1, true));
    assert!(board.at_wrap(4, 2, true));
    assert!(!board.at_wrap(1, 1, true));
}

#[test]
fn unwrapped_border_is_dead() {
    let board = board_with(4, 3, &[(0, 0), (3, 0), (0, 1), (3, 1), (0, 2), (3, 2)]);
    for y in -1..=3 {
        assert!(!board.at_wrap(-1, y, false));
        assert!(!board.at_wrap(4, y, false));
    }
    assert!(!board.at_wrap(0, -1, false));
    assert!(!board.at_wrap(0, 3, false));
    assert!(board.at_wrap(3, 2, false));
}

#[test]
fn wrapped_neighbors_cross_edges() {
    let board = board_with(5, 5, &[(4, 4), (4, 0), (0, 4)]);
    assert_eq!(board.count_neighbors(0, 0, true), 3);
    assert_eq!(board.count_neighbors(0, 0, false), 0);
}

#[test]
fn empty_grid_reads_dead() {
    let board = make_life(0, 0).board;
    assert!(!board.at_wrap(0, 0, true));
    assert!(!board.at_wrap(-1, 3, false));
    assert_eq!(board.count_neighbors(0, 0, true), 0);
    assert_eq!(board.at(0, 0), Err(GridError::OutOfBounds));
    let next = Conway.next(&board);
    assert_eq!(next.data.len(), 0);
}

#[test]
fn bounds_checked_access() {
    let mut board = make_life(3, 2).board;
    assert_eq!(board.set(2, 1, true), Ok(()));
    assert_eq!(board.at(2, 1), Ok(&true));
    assert_eq!(board.at(1, 1), Ok(&false));
    assert_eq!(board.at(3, 0), Err(GridError::OutOfBounds));
    assert_eq!(board.at(0, 2), Err(GridError::OutOfBounds));
    assert_eq!(board.set(3, 0, true), Err(GridError::OutOfBounds));
    assert_eq!(board.set(0, 2, true), Err(GridError::OutOfBounds));
    assert_eq!(board.data, vec![false, false, false, false, false, true]);
    *board.at_mut(0, 1) = true;
    assert_eq!(board.data, vec![false, false, false, true, false, true]);
}

#[test]
fn walker_covers_grid_once() {
    let mut walker = Walker::new(3, 2);
    let mut seen = Vec::new();
    while let Some(pair) = walker.next() {
        seen.push(pair);
    }
    assert_eq!(seen, vec![(0, 0), (1, 0), (2, 0), (0, 1), (1, 1), (2, 1)]);
    assert_eq!(walker.next(), None);
    assert_eq!(walker.next(), None);
}

#[test]
fn walker_on_empty_grids() {
    assert_eq!(Walker::new(0, 4).next(), None);
    assert_eq!(Walker::new(4, 0).next(), None);
    let mut walker = make_life(1, 1).board.walk();
    assert_eq!(walker.next(), Some((0, 0)));
    assert_eq!(walker.next(), None);
}

#[test]
fn walks_are_independent() {
    let board = make_life(2, 2).board;
    let mut first = board.walk();
    first.next();
    first.next();
    let mut second = board.walk();
    assert_eq!(second.next(), Some((0, 0)));
    assert_eq!(first.next(), Some((0, 1)));
}

#[test]
fn history_keeps_last_ten() {
    let mut history = History::new();
    for i in 0..15u32 {
        history.push(make_life(i + 1, 1).board);
        assert_eq!(history.len(), std::cmp::min(i as usize + 1, HISTORY_CAPACITY));
    }
    assert_eq!(history.len(), 10);
    let widths: Vec<u32> = history.iterate().iter().map(|b| b.width).collect();
    assert_eq!(widths, vec![6, 7, 8, 9, 10, 11, 12, 13, 14, 15]);
}

#[test]
fn randomize_changes_cells_not_size() {
    let mut board = make_life(50, 50).board;
    board.randomize();
    let first = board.data.clone();
    board.randomize();
    assert_ne!(first, board.data);
    assert_eq!(board.width, 50);
    assert_eq!(board.height, 50);
    assert_eq!(board.data.len(), 2500);
}

#[test]
fn make_life_starts_dead() {
    let life = make_life(4, 3);
    assert_eq!(life.board.width, 4);
    assert_eq!(life.board.height, 3);
    assert_eq!(life.board.data, vec![false; 12]);
}

#[test]
fn fill_places_cells_row_major() {
    let mut board = board_with(3, 2, &[(0, 0), (1, 0), (2, 0)]);
    let cells = vec![false, true, false, true, true, false];
    board.fill(&cells);
    assert_eq!(board.data, cells);
    assert_eq!(board.width, 3);
    assert_eq!(board.height, 2);
    assert!(!alive(&board, 0, 0));
    assert!(alive(&board, 1, 0));
    assert!(alive(&board, 0, 1));
    assert!(alive(&board, 1, 1));
    assert!(!alive(&board, 2, 1));
    assert_eq!(live_cells(&board), vec![(1, 0), (0, 1), (1, 1)]);
}

#[test]
fn fresh_walker_starts_at_origin() {
    let walker = Walker::new(0, 3);
    assert_eq!((walker.x, walker.y), (0, 0));
    let walker = make_life(4, 2).board.walk();
    assert_eq!((walker.x, walker.y), (0, 0));
}

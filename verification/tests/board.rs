use marubatsu::agent::AgentType;
use marubatsu::board::line_coords;
use marubatsu::board::Board;
use marubatsu::board::LINES;
use marubatsu::board::SIZE;
use marubatsu::cell::CellState;

const MARU: AgentType = AgentType::MARU;
const BATSU: AgentType = AgentType::BATSU;

fn cells_of(board: &Board) -> Vec<CellState> {
    let mut cells = Vec::new();
    for y in 0..SIZE {
        for x in 0..SIZE {
            cells.push(board.get(x, y));
        }
    }
    cells
}

fn count_owned(board: &Board, mark: AgentType) -> usize {
    cells_of(board).iter().filter(|c| c.belongs_to(mark)).count()
}

#[test]
fn new_board_is_empty() {
    let board = Board::new();
    assert_eq!(cells_of(&board), vec![CellState::Empty; 9]);
    assert_eq!(board.winner(), None);
}

#[test]
fn place_then_read_every_cell() {
    for mark in [MARU, BATSU] {
        for y in 0..SIZE {
            for x in 0..SIZE {
                let mut board = Board::new();
                board.put(x, y, mark);
                assert_eq!(board.get(x, y), CellState::Occupied(mark, 0));
                for b in 0..SIZE {
                    for a in 0..SIZE {
                        if (a, b) != (x, y) {
                            assert_eq!(board.get(a, b), CellState::Empty);
                        }
                    }
                }
            }
        }
    }
}

#[test]
fn get_reads_column_then_row() {
    let mut board = Board::new();
    board.put(2, 0, MARU);
    assert_eq!(board.get(2, 0), CellState::Occupied(MARU, 0));
    assert_eq!(board.get(0, 2), CellState::Empty);
}

#[test]
fn update_advances_every_cell_on_its_own() {
    let mut board = Board::new();
    board.put(0, 0, MARU);
    board.update(MARU);
    board.put(1, 0, MARU);
    board.update(MARU);
    board.put(2, 0, MARU);
    board.put(1, 1, BATSU);
    assert_eq!(board.get(0, 0), CellState::Occupied(MARU, 2));
    assert_eq!(board.get(1, 0), CellState::Occupied(MARU, 1));
    assert_eq!(board.get(2, 0), CellState::Occupied(MARU, 0));
    board.update(MARU);
    assert_eq!(board.get(0, 0), CellState::Faded(MARU));
    assert_eq!(board.get(1, 0), CellState::Occupied(MARU, 2));
    assert_eq!(board.get(2, 0), CellState::Occupied(MARU, 1));
    assert_eq!(board.get(1, 1), CellState::Empty);
    assert_eq!(board.get(2, 2), CellState::Empty);
    board.update(BATSU);
    assert_eq!(cells_of(&board), vec![CellState::Empty; 9]);
}

#[test]
fn lines_are_scanned_rows_columns_diagonals() {
    let expected = [
        [(0, 0), (1, 0), (2, 0)],
        [(0, 1), (1, 1), (2, 1)],
        [(0, 2), (1, 2), (2, 2)],
        [(0, 0), (0, 1), (0, 2)],
        [(1, 0), (1, 1), (1, 2)],
        [(2, 0), (2, 1), (2, 2)],
        [(0, 0), (1, 1), (2, 2)],
        [(0, 2), (1, 1), (2, 0)],
    ];
    assert_eq!(LINES, 8);
    for k in 0..LINES {
        for i in 0..SIZE {
            assert_eq!(line_coords(k, i), expected[k][i]);
        }
    }
}

#[test]
fn every_line_wins_for_either_mark() {
    for mark in [MARU, BATSU] {
        for k in 0..LINES {
            let mut board = Board::new();
            for i in 0..SIZE {
                assert_eq!(board.winner(), None);
                let (x, y) = line_coords(k, i);
                board.put(x, y, mark);
            }
            assert_eq!(board.winner(), Some(mark));
            for j in 0..LINES {
                assert_eq!(board.line_held_by(j, mark), j == k);
                assert!(!board.line_held_by(j, mark.next()));
            }
        }
    }
}

#[test]
fn a_mixed_line_does_not_win() {
    let mut board = Board::new();
    board.put(0, 0, MARU);
    board.put(1, 0, BATSU);
    board.put(2, 0, MARU);
    assert_eq!(board.winner(), None);
}

#[test]
fn a_faded_cell_does_not_count() {
    let mut board = Board::new();
    board.put(0, 0, MARU);
    board.update(MARU);
    board.put(1, 1, MARU);
    board.update(MARU);
    board.put(2, 2, MARU);
    assert_eq!(board.winner(), Some(MARU));
    board.update(MARU);
    assert_eq!(board.get(0, 0), CellState::Faded(MARU));
    assert_eq!(board.get(1, 1), CellState::Occupied(MARU, 2));
    assert_eq!(board.get(2, 2), CellState::Occupied(MARU, 1));
    assert_eq!(board.winner(), None);
}

#[test]
fn the_first_line_in_scan_order_wins() {
    let mut board = Board::new();
    for x in 0..SIZE {
        board.put(x, 0, BATSU);
        board.put(x, 1, MARU);
    }
    assert_eq!(board.winner(), Some(BATSU));
    let mut board = Board::new();
    for x in 0..SIZE {
        board.put(x, 0, MARU);
        board.put(x, 2, BATSU);
    }
    assert_eq!(board.winner(), Some(MARU));
    let mut board = Board::new();
    for y in 0..SIZE {
        board.put(0, y, MARU);
        board.put(2, y, BATSU);
    }
    assert_eq!(board.winner(), Some(MARU));
}

#[test]
fn three_placements_without_a_line() {
    let mut board = Board::new();
    board.put(1, 1, MARU);
    board.put(0, 0, BATSU);
    board.put(1, 0, MARU);
    assert_eq!(count_owned(&board, MARU), 2);
    assert_eq!(count_owned(&board, BATSU), 1);
    assert!(board.get(1, 1).belongs_to(MARU));
    assert!(board.get(1, 0).belongs_to(MARU));
    assert!(board.get(0, 0).belongs_to(BATSU));
    assert_eq!(board.winner(), None);
}

#[test]
fn three_in_column_zero_win() {
    let mut board = Board::new();
    board.put(0, 0, MARU);
    board.put(1, 0, BATSU);
    board.put(0, 1, MARU);
    board.put(1, 1, BATSU);
    assert_eq!(board.winner(), None);
    board.put(0, 2, MARU);
    assert_eq!(board.winner(), Some(MARU));
}

#[test]
fn a_mark_fades_clears_and_frees_its_cell() {
    for next_owner in [MARU, BATSU] {
        let mut board = Board::new();
        board.put(0, 0, MARU);
        board.update(MARU);
        assert_eq!(board.get(0, 0), CellState::Occupied(MARU, 1));
        board.update(MARU);
        assert_eq!(board.get(0, 0), CellState::Occupied(MARU, 2));
        board.update(MARU);
        assert_eq!(board.get(0, 0), CellState::Faded(MARU));
        board.update(MARU);
        assert_eq!(board.get(0, 0), CellState::Empty);
        board.put(0, 0, next_owner);
        assert_eq!(board.get(0, 0), CellState::Occupied(next_owner, 0));
    }
}

#[test]
fn first_empty_scans_row_by_row() {
    let mut board = Board::new();
    let mut expected = Vec::new();
    for y in 0..SIZE {
        for x in 0..SIZE {
            expected.push((x, y));
        }
    }
    for (x, y) in expected {
        assert_eq!(board.first_empty(), Some((x, y)));
        board.put(x, y, BATSU);
    }
    assert_eq!(board.first_empty(), None);
}

#[test]
fn first_empty_skips_faded_cells() {
    let mut board = Board::new();
    board.put(0, 0, MARU);
    board.update(MARU);
    board.update(MARU);
    board.update(MARU);
    assert_eq!(board.get(0, 0), CellState::Faded(MARU));
    assert_eq!(board.first_empty(), Some((1, 0)));
}

#[test]
fn boards_compare_cell_by_cell() {
    let mut a = Board::new();
    let mut b = Board::new();
    assert_eq!(a, b);
    a.put(2, 1, MARU);
    assert_ne!(a, b);
    b.put(2, 1, MARU);
    assert_eq!(a, b);
    let copy = a;
    a.update(MARU);
    assert_ne!(a, copy);
    assert_eq!(copy, b);
}

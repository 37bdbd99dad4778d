use tictactoe_engine::board::{Board, BoardError, Mark, Outcome};

const LINES: [[usize; 3]; 8] = [
    [0, 1, 2],
    [3, 4, 5],
    [6, 7, 8],
    [0, 3, 6],
    [1, 4, 7],
    [2, 5, 8],
    [0, 4, 8],
    [2, 4, 6],
];

const ORDERS: [[usize; 3]; 6] = [
    [0, 1, 2],
    [0, 2, 1],
    [1, 0, 2],
    [1, 2, 0],
    [2, 0, 1],
    [2, 1, 0],
];

#[test]
fn every_line_wins_in_any_order() {
    for (id, line) in LINES.iter().enumerate() {
        let mark = if id % 2 == 0 { Mark::First } else { Mark::Second };
        for order in ORDERS.iter() {
            let mut b = Board::new();
            b.apply(line[order[0]], mark).unwrap();
            assert_eq!(b.evaluate(), Outcome::Ongoing);
            b.apply(line[order[1]], mark).unwrap();
            assert_eq!(b.evaluate(), Outcome::Ongoing);
            b.apply(line[order[2]], mark).unwrap();
            assert_eq!(b.evaluate(), Outcome::Line(mark, id as u8));
        }
    }
}

#[test]
fn full_board_without_line_is_draw_not_ongoing() {
    // X O X / X O O / O X X: no row, column or diagonal matches.
    let mut b = Board::new();
    for cell in [0usize, 2, 3, 7, 8] {
        b.apply(cell, Mark::First).unwrap();
    }
    for cell in [1usize, 4, 5, 6] {
        b.apply(cell, Mark::Second).unwrap();
    }
    assert_eq!(b.evaluate(), Outcome::Draw);
}

#[test]
fn partial_board_is_ongoing() {
    let mut b = Board::new();
    b.apply(0, Mark::First).unwrap();
    b.apply(4, Mark::Second).unwrap();
    assert_eq!(b.evaluate(), Outcome::Ongoing);
}

#[test]
fn occupied_cell_is_refused_and_kept() {
    let mut b = Board::new();
    b.apply(4, Mark::First).unwrap();
    assert_eq!(b.apply(4, Mark::Second), Err(BoardError::CellOccupied));
    assert_eq!(b.get(4), Mark::First);
}

#[test]
fn simultaneous_lines_report_the_lowest_id() {
    // The mark placed at cell 0 completes both the top row (line 0) and the
    // left column (line 3); the lower identifier wins the tie.
    let mut b = Board::new();
    for cell in [1usize, 2, 3, 6] {
        b.apply(cell, Mark::First).unwrap();
    }
    assert_eq!(b.evaluate(), Outcome::Ongoing);
    b.apply(0, Mark::First).unwrap();
    assert_eq!(b.evaluate(), Outcome::Line(Mark::First, 0));
}

#[test]
fn empty_board_is_ongoing() {
    let b = Board::new();
    assert_eq!(b.evaluate(), Outcome::Ongoing);
    for cell in 0..9 {
        assert_eq!(b.get(cell), Mark::Empty);
    }
}

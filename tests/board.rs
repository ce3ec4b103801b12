use tictactoe::board::{dividers, Board, BoardError, Bounds, Cell, Rect};
use tictactoe::token::Token;

#[test]
fn new_board_is_empty() {
    let b = Board::new();
    for i in 0..9 {
        assert_eq!(b.token_at(i), Token::Empty);
    }
    assert_eq!(b.snapshot().len(), 9);
}

#[test]
fn reset_board_is_empty() {
    let mut b = Board::new();
    for i in 0..9 {
        let t = if i % 2 == 0 { Token::Cross } else { Token::Circle };
        assert_eq!(b.place(i, t), Ok(()));
    }
    b.reset();
    for i in 0..9 {
        assert_eq!(b.token_at(i), Token::Empty);
    }
    b.reset();
    assert!(b.tokens().iter().all(|t| *t == Token::Empty));
}

#[test]
fn cell_geometry() {
    let b = Board::new();
    let cells = b.snapshot();
    assert_eq!(cells[0].bounds, Bounds { x_min: 5, y_min: 5, x_max: 195, y_max: 195 });
    assert_eq!(cells[4].bounds, Bounds { x_min: 205, y_min: 205, x_max: 395, y_max: 395 });
    assert_eq!(cells[5].bounds, Bounds { x_min: 405, y_min: 205, x_max: 595, y_max: 395 });
    assert_eq!(cells[7].bounds, Bounds { x_min: 205, y_min: 405, x_max: 395, y_max: 595 });
    assert_eq!(cells[8], Cell { token: Token::Empty, bounds: Bounds { x_min: 405, y_min: 405, x_max: 595, y_max: 595 } });
}

#[test]
fn place_then_locate_inside() {
    let points = [(100, 100), (300, 6), (594, 194), (6, 300), (300, 300), (500, 300), (100, 500), (300, 594), (406, 406)];
    for (i, (x, y)) in points.iter().enumerate() {
        let mut b = Board::new();
        assert_eq!(b.place(i, Token::Cross), Ok(()));
        assert_eq!(b.token_at(i), Token::Cross);
        assert_eq!(b.locate(*x, *y), i);
    }
}

#[test]
fn locate_each_cell_centre() {
    let b = Board::new();
    for i in 0..9usize {
        let x = (i % 3) as i64 * 200 + 100;
        let y = (i / 3) as i64 * 200 + 100;
        assert_eq!(b.locate(x, y), i);
    }
}

#[test]
fn locate_outside_falls_back_to_zero() {
    let b = Board::new();
    assert_eq!(b.locate(-1, -1), 0);
    assert_eq!(b.locate(200, 300), 0);
    assert_eq!(b.locate(300, 400), 0);
    assert_eq!(b.locate(700, 700), 0);
    // edges are not inside
    assert_eq!(b.locate(205, 300), 0);
    assert_eq!(b.locate(395, 300), 0);
    assert_eq!(b.locate(5, 5), 0);
    assert_eq!(b.locate(206, 206), 4);
}

#[test]
fn place_invalid_index() {
    let mut b = Board::new();
    assert_eq!(b.place(9, Token::Cross), Err(BoardError::InvalidIndex));
    assert_eq!(b.place(100, Token::Circle), Err(BoardError::InvalidIndex));
    assert!(b.tokens().iter().all(|t| *t == Token::Empty));
}

#[test]
fn place_sets_only_that_cell() {
    let mut b = Board::new();
    assert_eq!(b.place(3, Token::Circle), Ok(()));
    let t = b.tokens();
    for i in 0..9 {
        assert_eq!(t[i], if i == 3 { Token::Circle } else { Token::Empty });
    }
}

#[test]
fn divider_bars() {
    let d = dividers();
    assert_eq!(d.len(), 4);
    assert_eq!(d[0], Rect { x: 195, y: 0, width: 10, height: 595 });
    assert_eq!(d[1], Rect { x: 395, y: 0, width: 10, height: 595 });
    assert_eq!(d[2], Rect { x: 5, y: 195, width: 595, height: 10 });
    assert_eq!(d[3], Rect { x: 5, y: 395, width: 595, height: 10 });
}

#[test]
fn token_next_alternates() {
    assert_eq!(Token::Cross.next(), Token::Circle);
    assert_eq!(Token::Circle.next(), Token::Cross);
    assert_eq!(Token::Empty.next(), Token::Empty);
}

use tictactoe::token::Token;
use tictactoe::win::check_for_win;

const X: Token = Token::Cross;
const O: Token = Token::Circle;
const E: Token = Token::Empty;

const LINES: [[usize; 3]; 8] = [
    [0, 1, 2],
    [3, 4, 5],
    [6, 7, 8],
    [0, 3, 6],
    [1, 4, 7],
    [2, 5, 8],
    [0, 4, 8],
    [2, 4, 6],
];

fn brute_force(t: &[Token]) -> Token {
    for l in LINES.iter() {
        if t[l[0]] != E && t[l[0]] == t[l[1]] && t[l[1]] == t[l[2]] {
            return t[l[0]];
        }
    }
    E
}

#[test]
fn top_row_wins() {
    assert_eq!(check_for_win(&[X, X, X, E, E, E, E, E, E]), X);
    assert_eq!(check_for_win(&[O, O, O, E, E, E, E, E, E]), O);
}

#[test]
fn no_completed_line() {
    assert_eq!(check_for_win(&[X, O, X, O, X, O, O, X, E]), E);
    assert_eq!(check_for_win(&[E, E, E, E, E, E, E, E, E]), E);
}

#[test]
fn full_draw_has_no_winner() {
    assert_eq!(check_for_win(&[X, O, X, X, O, O, O, X, X]), E);
}

#[test]
fn every_line_wins_alone() {
    for l in LINES.iter() {
        for p in [X, O] {
            let mut t = [E; 9];
            for &i in l.iter() {
                t[i] = p;
            }
            assert_eq!(check_for_win(&t), p);
        }
    }
}

#[test]
fn two_plus_one_never_wins() {
    for l in LINES.iter() {
        for p in [X, O] {
            for other in [E, if p == X { O } else { X }] {
                for odd in 0..3 {
                    let mut t = [E; 9];
                    for (k, &i) in l.iter().enumerate() {
                        t[i] = if k == odd { other } else { p };
                    }
                    assert_eq!(check_for_win(&t), E);
                }
            }
        }
    }
}

#[test]
fn mixed_boards() {
    assert_eq!(check_for_win(&[O, E, E, X, X, X, O, E, O]), X);
    assert_eq!(check_for_win(&[O, E, E, O, X, X, O, X, X]), O);
    assert_eq!(check_for_win(&[X, O, O, E, X, E, O, E, X]), X);
    assert_eq!(check_for_win(&[X, X, O, X, O, E, O, E, E]), O);
}

#[test]
fn exhaustive_against_line_enumeration() {
    for code in 0..19683u32 {
        let mut c = code;
        let mut t = [E; 9];
        for cell in t.iter_mut() {
            *cell = match c % 3 {
                0 => E,
                1 => X,
                _ => O,
            };
            c /= 3;
        }
        assert_eq!(check_for_win(&t), brute_force(&t), "board {:?}", t);
    }
}

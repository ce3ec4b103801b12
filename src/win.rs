use vstd::prelude::*;

use crate::token::Token;

verus! {

/// Weight of cell `i` in the 3 x 3 magic square `8 1 6 / 3 5 7 / 4 9 2`, whose
/// rows, columns and diagonals all sum to 15.
pub open spec fn weight(i: int) -> int {
    if i == 0 {
        8
    } else if i == 1 {
        1
    } else if i == 2 {
        6
    } else if i == 3 {
        3
    } else if i == 4 {
        5
    } else if i == 5 {
        7
    } else if i == 6 {
        4
    } else if i == 7 {
        9
    } else {
        2
    }
}

/// A cell's weight scaled by its occupant: doubled for a cross, doubled and
/// negated for a circle, unchanged when empty.
pub open spec fn scaled(t: Token, w: int) -> int {
    match t {
        Token::Cross => 2 * w,
        Token::Circle => -2 * w,
        Token::Empty => w,
    }
}

/// The three cells of line `k`: rows 0..3, then columns 3..6, then the main
/// diagonal (6) and the anti-diagonal (7).
pub open spec fn line(k: int) -> (int, int, int) {
    if k < 3 {
        (3 * k, 3 * k + 1, 3 * k + 2)
    } else if k < 6 {
        (k - 3, k, k + 3)
    } else if k == 6 {
        (0, 4, 8)
    } else {
        (2, 4, 6)
    }
}

/// The scaled sum along line `k`.
pub open spec fn line_sum(t: Seq<Token>, k: int) -> int {
    let (a, b, c) = line(k);
    scaled(t[a], weight(a)) + scaled(t[b], weight(b)) + scaled(t[c], weight(c))
}

/// What the magic-square sum of line `k` says: +30 for a cross, -30 for a
/// circle, anything else for nobody.
pub open spec fn line_verdict(t: Seq<Token>, k: int) -> Token {
    if line_sum(t, k) == 30 {
        Token::Cross
    } else if line_sum(t, k) == -30 {
        Token::Circle
    } else {
        Token::Empty
    }
}

/// The player holding all three cells of line `k`, or `Empty`.
pub open spec fn line_owner(t: Seq<Token>, k: int) -> Token {
    let (a, b, c) = line(k);
    if t[a] != Token::Empty && t[a] == t[b] && t[b] == t[c] {
        t[a]
    } else {
        Token::Empty
    }
}

/// The verdict of the first line, from `k` on, whose magic sum names a player.
pub open spec fn magic_from(t: Seq<Token>, k: int) -> Token
    decreases 8 - k,
{
    if k < 0 || k >= 8 {
        Token::Empty
    } else if line_verdict(t, k) != Token::Empty {
        line_verdict(t, k)
    } else {
        magic_from(t, k + 1)
    }
}

/// The owner of the first line, from `k` on, that one player holds whole.
pub open spec fn owner_from(t: Seq<Token>, k: int) -> Token
    decreases 8 - k,
{
    if k < 0 || k >= 8 {
        Token::Empty
    } else if line_owner(t, k) != Token::Empty {
        line_owner(t, k)
    } else {
        owner_from(t, k + 1)
    }
}

/// The result of the magic-square check: lines in the order rows, columns,
/// diagonals, the first whose scaled sum is +30 or -30 deciding.
pub open spec fn magic_winner(t: Seq<Token>) -> Token {
    magic_from(t, 0)
}

/// The winner by plain line enumeration: the owner of the first line (rows,
/// columns, diagonals) that one player holds whole, or `Empty` when none is.
pub open spec fn winner(t: Seq<Token>) -> Token {
    owner_from(t, 0)
}

/// On each of the eight lines the magic sum is +30 exactly when crosses hold
/// the line and -30 exactly when circles do.
proof fn lemma_line_verdict(t: Seq<Token>, k: int)
    requires
        t.len() == 9,
        0 <= k < 8,
    ensures
        line_verdict(t, k) == line_owner(t, k),
{
    let (a, b, c) = line(k);
    assert(weight(a) + weight(b) + weight(c) == 15);
    assert(weight(a) > 0 && weight(b) > 0 && weight(c) > 0);
}

proof fn lemma_magic_from(t: Seq<Token>, k: int)
    requires
        t.len() == 9,
        0 <= k <= 8,
    ensures
        magic_from(t, k) == owner_from(t, k),
    decreases 8 - k,
{
    if k < 8 {
        lemma_line_verdict(t, k);
        lemma_magic_from(t, k + 1);
    }
}

/// The magic-square check and plain enumeration of the eight lines classify
/// every board alike: a line wins only when one player holds all three cells.
pub proof fn lemma_magic_square_matches_lines(t: Seq<Token>)
    requires
        t.len() == 9,
    ensures
        magic_winner(t) == winner(t),
{
    lemma_magic_from(t, 0);
}

/// The verdict of line `k`, read off the scaled weights of the board `t`.
fn line_result(win_grid: &Vec<i64>, a: usize, b: usize, c: usize, t: Ghost<Seq<Token>>, k: Ghost<int>) -> (r: Token)
    requires
        0 <= k@ < 8,
        line(k@) == (a as int, b as int, c as int),
        t@.len() == 9,
        win_grid@.len() == 9,
        forall|j: int| 0 <= j < 9 ==> #[trigger] win_grid@[j] == scaled(t@[j], weight(j)),
    ensures
        r == line_verdict(t@, k@),
{
    assert(a < 9 && b < 9 && c < 9);
    let sum = win_grid[a] + win_grid[b] + win_grid[c];
    assert(sum == line_sum(t@, k@));
    if sum == 30 {
        Token::Cross
    } else if sum == -30 {
        Token::Circle
    } else {
        Token::Empty
    }
}

/// The winner of a 3 x 3 board given as nine occupants in row-major order,
/// or `Empty` when nobody holds a whole row, column or diagonal.
///
/// Each cell carries its magic-square weight, doubled for a cross and doubled
/// and negated for a circle; a line is won when its sum reaches +30 or -30.
/// Rows are checked first, then columns, then the two diagonals.
pub fn check_for_win(tokens: &[Token]) -> (r: Token)
    requires
        tokens@.len() == 9,
    ensures
        r == winner(tokens@),
        r == magic_winner(tokens@),
{
    let t = Ghost(tokens@);
    let mut win_grid: Vec<i64> = vec![8, 1, 6, 3, 5, 7, 4, 9, 2];
    assert(forall|j: int| 0 <= j < 9 ==> #[trigger] win_grid@[j] == weight(j)) by {
        assert(win_grid@ == seq![8i64, 1, 6, 3, 5, 7, 4, 9, 2]);
    }
    let mut i: usize = 0;
    while i < 9
        invariant
            i <= 9,
            tokens@ == t@,
            t@.len() == 9,
            win_grid@.len() == 9,
            forall|j: int| 0 <= j < i ==> #[trigger] win_grid@[j] == scaled(t@[j], weight(j)),
            forall|j: int| i <= j < 9 ==> #[trigger] win_grid@[j] == weight(j),
        decreases 9 - i,
    {
        let w = win_grid[i];
        assert(0 < w <= 9);
        match tokens[i] {
            Token::Cross => win_grid.set(i, w * 2),
            Token::Circle => win_grid.set(i, w * -2),
            Token::Empty => {},
        }
        i = i + 1;
    }
    assert(forall|j: int| 0 <= j < 9 ==> #[trigger] win_grid@[j] == scaled(t@[j], weight(j)));
    proof {
        lemma_magic_square_matches_lines(t@);
    }
    // Rows.
    let mut i: usize = 0;
    while i < 3
        invariant
            i <= 3,
            tokens@ == t@,
            t@.len() == 9,
            magic_winner(t@) == winner(t@),
            win_grid@.len() == 9,
            forall|j: int| 0 <= j < 9 ==> #[trigger] win_grid@[j] == scaled(t@[j], weight(j)),
            magic_winner(t@) == magic_from(t@, i as int),
        decreases 3 - i,
    {
        let v = line_result(&win_grid, i * 3, i * 3 + 1, i * 3 + 2, t, Ghost(i as int));
        if v != Token::Empty {
            return v;
        }
        i = i + 1;
    }
    // Columns.
    let mut i: usize = 0;
    while i < 3
        invariant
            i <= 3,
            tokens@ == t@,
            t@.len() == 9,
            magic_winner(t@) == winner(t@),
            win_grid@.len() == 9,
            forall|j: int| 0 <= j < 9 ==> #[trigger] win_grid@[j] == scaled(t@[j], weight(j)),
            magic_winner(t@) == magic_from(t@, i + 3),
        decreases 3 - i,
    {
        let v = line_result(&win_grid, i, i + 3, i + 6, t, Ghost(i + 3));
        if v != Token::Empty {
            return v;
        }
        i = i + 1;
    }
    // Diagonals.
    let v = line_result(&win_grid, 0, 4, 8, t, Ghost(6));
    if v != Token::Empty {
        return v;
    }
    let v = line_result(&win_grid, 2, 4, 6, t, Ghost(7));
    assert(magic_from(t@, 6) == magic_from(t@, 7));
    assert(magic_from(t@, 8) == Token::Empty);
    assert(magic_from(t@, 7) == v);
    v
}

} // verus!

use vstd::prelude::*;

use crate::board::{all_empty, cell_bounds, located, tokens_of, Board, BoardError, Cell};
use crate::token::Token;
use crate::win::{check_for_win, winner};

verus! {

/// A game in progress: the board, whose turn it is, and each player's wins.
pub struct GameSession {
    board: Board,
    turn: Token,
    cross_score: u64,
    circle_score: u64,
}

impl GameSession {
    /// The cells of the board.
    pub closed spec fn cells(&self) -> Seq<Cell> {
        self.board@
    }

    /// The player who places next.
    pub closed spec fn current_turn(&self) -> Token {
        self.turn
    }

    /// Games won by crosses.
    pub closed spec fn crosses_won(&self) -> nat {
        self.cross_score as nat
    }

    /// Games won by circles.
    pub closed spec fn circles_won(&self) -> nat {
        self.circle_score as nat
    }

    /// The board keeps its layout and the turn is always a player's.
    pub open spec fn wf(&self) -> bool {
        &&& self.cells().len() == 9
        &&& forall|i: int| 0 <= i < 9 ==> #[trigger] self.cells()[i].bounds == cell_bounds(i)
        &&& (self.current_turn() == Token::Cross || self.current_turn() == Token::Circle)
    }

    /// The occupants after the current player's token goes into cell `index`.
    pub open spec fn placed(&self, index: int) -> Seq<Token> {
        tokens_of(self.cells()).update(index, self.current_turn())
    }

    /// What a move into cell `index` does to `self`, giving `next` and
    /// reporting `r`: an index outside the board is refused, an occupied cell
    /// leaves everything as it was, and an empty one takes the current
    /// player's token and passes the turn. When that placement completes a
    /// line, the winner scores one and the board is emptied.
    pub open spec fn play_spec(&self, next: GameSession, index: int, r: Result<bool, BoardError>) -> bool {
        if index < 0 || index >= 9 {
            r == Err::<bool, BoardError>(BoardError::InvalidIndex) && next == *self
        } else if self.cells()[index].token != Token::Empty {
            r == Ok::<bool, BoardError>(false) && next == *self
        } else {
            let w = winner(self.placed(index));
            &&& r == Ok::<bool, BoardError>(true)
            &&& next.current_turn() == self.current_turn().next_spec()
            &&& w == Token::Cross ==> {
                &&& next.crosses_won() == self.crosses_won() + 1
                &&& next.circles_won() == self.circles_won()
                &&& all_empty(next.cells())
            }
            &&& w == Token::Circle ==> {
                &&& next.circles_won() == self.circles_won() + 1
                &&& next.crosses_won() == self.crosses_won()
                &&& all_empty(next.cells())
            }
            &&& w == Token::Empty ==> {
                &&& next.crosses_won() == self.crosses_won()
                &&& next.circles_won() == self.circles_won()
                &&& tokens_of(next.cells()) == self.placed(index)
            }
        }
    }

    /// A new game: an empty board, crosses to move, no wins on either side.
    pub fn new() -> (s: GameSession)
        ensures
            s.wf(),
            all_empty(s.cells()),
            s.current_turn() == Token::Cross,
            s.crosses_won() == 0,
            s.circles_won() == 0,
    {
        GameSession { board: Board::new(), turn: Token::Cross, cross_score: 0, circle_score: 0 }
    }

    /// The current player moves into cell `index`. Returns whether a token was
    /// placed; see `play_spec` for the whole effect.
    pub fn play(&mut self, index: usize) -> (r: Result<bool, BoardError>)
        requires
            old(self).wf(),
            old(self).crosses_won() < u64::MAX,
            old(self).circles_won() < u64::MAX,
        ensures
            final(self).wf(),
            old(self).play_spec(*final(self), index as int, r),
    {
        if index >= 9 {
            return Err(BoardError::InvalidIndex);
        }
        if self.board.token_at(index) != Token::Empty {
            return Ok(false);
        }
        let ghost before = *self;
        let placed = self.board.place(index, self.turn);
        assert(placed is Ok);
        self.turn = self.turn.next();
        let tokens = self.board.tokens();
        assert(tokens@ == before.placed(index as int));
        match check_for_win(tokens.as_slice()) {
            Token::Cross => {
                self.cross_score = self.cross_score + 1;
                self.board.reset();
            },
            Token::Circle => {
                self.circle_score = self.circle_score + 1;
                self.board.reset();
            },
            Token::Empty => {},
        }
        Ok(true)
    }

    /// A click at `(x, y)`: the current player moves into the cell that the
    /// point selects (cell 0 when no cell contains it). Returns whether a token
    /// was placed.
    pub fn click(&mut self, x: i64, y: i64) -> (r: bool)
        requires
            old(self).wf(),
            old(self).crosses_won() < u64::MAX,
            old(self).circles_won() < u64::MAX,
        ensures
            final(self).wf(),
            old(self).play_spec(
                *final(self),
                located(old(self).cells(), x as int, y as int),
                Ok::<bool, BoardError>(r),
            ),
    {
        let index = self.board.locate(x, y);
        match self.play(index) {
            Ok(placed) => placed,
            Err(_) => false,
        }
    }

    /// The player who places next.
    pub fn turn(&self) -> (r: Token)
        ensures
            r == self.current_turn(),
    {
        self.turn
    }

    /// Games won by crosses.
    pub fn cross_score(&self) -> (r: u64)
        ensures
            r as nat == self.crosses_won(),
    {
        self.cross_score
    }

    /// Games won by circles.
    pub fn circle_score(&self) -> (r: u64)
        ensures
            r as nat == self.circles_won(),
    {
        self.circle_score
    }

    /// The board, for reading.
    pub fn board(&self) -> (r: &Board)
        ensures
            r@ == self.cells(),
    {
        &self.board
    }
}

/// Turns strictly alternate from crosses: when each turn in `turns` is the
/// one that follows its predecessor, as after every placement, the `k`-th is
/// crosses' for even `k` and circles' for odd `k`.
pub proof fn lemma_turn_alternation(turns: Seq<Token>)
    requires
        turns.len() >= 1,
        turns[0] == Token::Cross,
        forall|k: int| 0 <= k < turns.len() - 1 ==> #[trigger] turns[k + 1] == turns[k].next_spec(),
    ensures
        forall|k: int|
            0 <= k < turns.len() ==> #[trigger] turns[k] == (if k % 2 == 0 {
                Token::Cross
            } else {
                Token::Circle
            }),
    decreases turns.len(),
{
    if turns.len() > 1 {
        let prefix = turns.drop_last();
        lemma_turn_alternation(prefix);
        assert forall|k: int| 0 <= k < turns.len() implies #[trigger] turns[k] == (if k % 2 == 0 {
            Token::Cross
        } else {
            Token::Circle
        }) by {
            if k < turns.len() - 1 {
                assert(turns[k] == prefix[k]);
            } else {
                assert(turns[k - 1] == prefix[k - 1]);
                assert(turns[(k - 1) + 1] == turns[k - 1].next_spec());
            }
        }
    }
}

} // verus!

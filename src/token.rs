use vstd::prelude::*;

verus! {

/// The occupant of a board cell.
#[derive(Clone, Copy, Debug, PartialEq, Eq, Structural)]
pub enum Token {
    Cross,
    Circle,
    Empty,
}

impl Token {
    /// The player whose turn follows this one's; `Empty` stays `Empty`.
    pub open spec fn next_spec(self) -> Token {
        match self {
            Token::Cross => Token::Circle,
            Token::Circle => Token::Cross,
            Token::Empty => Token::Empty,
        }
    }

    /// The player who moves after `self`.
    pub fn next(self) -> (r: Token)
        ensures
            r == self.next_spec(),
    {
        match self {
            Token::Cross => Token::Circle,
            Token::Circle => Token::Cross,
            Token::Empty => Token::Empty,
        }
    }
}

} // verus!

use vstd::prelude::*;

use crate::token::Token;

verus! {

/// Side of one grid block on the 600 x 600 canvas.
pub const BLOCK: i64 = 200;

/// Inset of a cell from the edges of its grid block.
pub const MARGIN: i64 = 5;

/// An axis-aligned rectangle given by its two opposite corners.
#[derive(Clone, Copy, Debug, PartialEq, Eq, Structural)]
pub struct Bounds {
    pub x_min: i64,
    pub y_min: i64,
    pub x_max: i64,
    pub y_max: i64,
}

impl Bounds {
    /// The point lies strictly inside, on none of the four edges.
    pub open spec fn contains_spec(self, x: int, y: int) -> bool {
        self.x_min < x < self.x_max && self.y_min < y < self.y_max
    }

    /// Whether the point lies strictly inside these bounds.
    pub fn contains(&self, x: i64, y: i64) -> (r: bool)
        ensures
            r == self.contains_spec(x as int, y as int),
    {
        x > self.x_min && x < self.x_max && y > self.y_min && y < self.y_max
    }
}

/// A rectangle given by its top-left corner and its size, as a renderer draws it.
#[derive(Clone, Copy, Debug, PartialEq, Eq, Structural)]
pub struct Rect {
    pub x: i64,
    pub y: i64,
    pub width: i64,
    pub height: i64,
}

/// One of the nine positions of the board: its occupant and its hit-test bounds.
#[derive(Clone, Copy, Debug, PartialEq, Eq, Structural)]
pub struct Cell {
    pub token: Token,
    pub bounds: Bounds,
}

/// Column of cell `i` (row-major order).
pub open spec fn col(i: int) -> int {
    i % 3
}

/// Row of cell `i` (row-major order).
pub open spec fn row(i: int) -> int {
    i / 3
}

/// The bounds of cell `i`: its grid block inset by the margin on every side.
pub open spec fn cell_bounds(i: int) -> Bounds {
    Bounds {
        x_min: (col(i) * BLOCK + MARGIN) as i64,
        y_min: (row(i) * BLOCK + MARGIN) as i64,
        x_max: ((col(i) + 1) * BLOCK - MARGIN) as i64,
        y_max: ((row(i) + 1) * BLOCK - MARGIN) as i64,
    }
}

/// The four dividing bars drawn between the cells: two vertical, two horizontal.
pub open spec fn dividers_spec() -> Seq<Rect> {
    seq![
        Rect { x: 195, y: 0, width: 10, height: 595 },
        Rect { x: 395, y: 0, width: 10, height: 595 },
        Rect { x: 5, y: 195, width: 595, height: 10 },
        Rect { x: 5, y: 395, width: 595, height: 10 },
    ]
}

/// The index of the first cell, from `k` on, whose bounds strictly contain the
/// point; 0 when none does.
pub open spec fn locate_from(cells: Seq<Cell>, x: int, y: int, k: int) -> int
    decreases cells.len() - k,
{
    if k < 0 || k >= cells.len() {
        0
    } else if cells[k].bounds.contains_spec(x, y) {
        k
    } else {
        locate_from(cells, x, y, k + 1)
    }
}

/// The cell that a point selects: the first, in index order, that strictly
/// contains it, and cell 0 as a fallback when no cell does.
pub open spec fn located(cells: Seq<Cell>, x: int, y: int) -> int {
    locate_from(cells, x, y, 0)
}

/// The occupants of the cells, in index order.
pub open spec fn tokens_of(cells: Seq<Cell>) -> Seq<Token> {
    Seq::new(cells.len(), |i: int| cells[i].token)
}

/// Every cell is empty.
pub open spec fn all_empty(cells: Seq<Cell>) -> bool {
    forall|i: int| 0 <= i < cells.len() ==> #[trigger] cells[i].token == Token::Empty
}

/// Two cells of the grid never share an interior point.
proof fn lemma_cells_disjoint(i: int, j: int, x: int, y: int)
    requires
        0 <= i < 9,
        0 <= j < 9,
        cell_bounds(i).contains_spec(x, y),
        cell_bounds(j).contains_spec(x, y),
    ensures
        i == j,
{
    assert(i == 3 * row(i) + col(i) && 0 <= col(i) < 3 && 0 <= row(i) < 3);
    assert(j == 3 * row(j) + col(j) && 0 <= col(j) < 3 && 0 <= row(j) < 3);
}

/// Once cells `k` up to `i` are scanned and only cell `i` contains the point,
/// the scan from `k` stops at `i`.
proof fn lemma_locate_from_reaches(cells: Seq<Cell>, x: int, y: int, k: int, i: int)
    requires
        0 <= k <= i < cells.len(),
        cells[i].bounds.contains_spec(x, y),
        forall|j: int| k <= j < i ==> !(#[trigger] cells[j].bounds.contains_spec(x, y)),
    ensures
        locate_from(cells, x, y, k) == i,
    decreases i - k,
{
    if k < i {
        lemma_locate_from_reaches(cells, x, y, k + 1, i);
    }
}

/// Placing a token in a cell and then locating any point strictly inside that
/// cell's bounds gives back the same cell.
pub proof fn lemma_place_then_locate(b: Board, index: int, token: Token, x: int, y: int)
    requires
        b.wf(),
        0 <= index < 9,
        b@[index].token == Token::Empty,
        b@[index].bounds.contains_spec(x, y),
    ensures
        located(
            b@.update(index, Cell { token, bounds: b@[index].bounds }),
            x,
            y,
        ) == index,
{
    let cells = b@.update(index, Cell { token, bounds: b@[index].bounds });
    assert forall|j: int| 0 <= j < index implies !(#[trigger] cells[j].bounds.contains_spec(x, y)) by {
        if cells[j].bounds.contains_spec(x, y) {
            lemma_cells_disjoint(index, j, x, y);
        }
    }
    lemma_locate_from_reaches(cells, x, y, 0, index);
}

/// Scanning from `k` a board none of whose cells from `k` on contains the point
/// ends in the fallback.
proof fn lemma_locate_from_misses(cells: Seq<Cell>, x: int, y: int, k: int)
    requires
        0 <= k,
        forall|j: int| k <= j < cells.len() ==> !(#[trigger] cells[j].bounds.contains_spec(x, y)),
    ensures
        locate_from(cells, x, y, k) == 0,
    decreases cells.len() - k,
{
    if k < cells.len() {
        lemma_locate_from_misses(cells, x, y, k + 1);
    }
}

/// A point that no cell strictly contains (a margin, a divider, a point off the
/// canvas) selects cell 0.
pub proof fn lemma_locate_outside(b: Board, x: int, y: int)
    requires
        b.wf(),
        forall|i: int| 0 <= i < 9 ==> !(#[trigger] cell_bounds(i).contains_spec(x, y)),
    ensures
        located(b@, x, y) == 0,
{
    lemma_locate_from_misses(b@, x, y, 0);
}

/// Errors of the board's operations.
#[derive(Clone, Copy, Debug, PartialEq, Eq, Structural)]
pub enum BoardError {
    /// A cell index outside 0..9.
    InvalidIndex,
}

/// The 3 x 3 board: nine cells in row-major order.
pub struct Board {
    cells: Vec<Cell>,
}

impl View for Board {
    type V = Seq<Cell>;

    closed spec fn view(&self) -> Seq<Cell> {
        self.cells@
    }
}

/// The bounds of cell `i`, computed.
fn bounds_of(i: usize) -> (r: Bounds)
    requires
        i < 9,
    ensures
        r == cell_bounds(i as int),
{
    let c = (i % 3) as i64;
    let w = (i / 3) as i64;
    Bounds {
        x_min: c * BLOCK + MARGIN,
        y_min: w * BLOCK + MARGIN,
        x_max: (c + 1) * BLOCK - MARGIN,
        y_max: (w + 1) * BLOCK - MARGIN,
    }
}

impl Board {
    /// Nine cells, each at its fixed place of the grid.
    pub open spec fn wf(&self) -> bool {
        &&& self@.len() == 9
        &&& forall|i: int| 0 <= i < 9 ==> #[trigger] self@[i].bounds == cell_bounds(i)
    }

    /// A board of nine empty cells laid out on the 600 x 600 canvas.
    pub fn new() -> (b: Board)
        ensures
            b.wf(),
            all_empty(b@),
    {
        let mut cells: Vec<Cell> = Vec::new();
        let mut i: usize = 0;
        while i < 9
            invariant
                i <= 9,
                cells@.len() == i,
                forall|j: int| 0 <= j < i ==> #[trigger] cells@[j] == (Cell {
                    token: Token::Empty,
                    bounds: cell_bounds(j),
                }),
            decreases 9 - i,
        {
            cells.push(Cell { token: Token::Empty, bounds: bounds_of(i) });
            i = i + 1;
        }
        Board { cells }
    }

    /// The index of the cell that the point selects: the first whose bounds
    /// strictly contain it, or 0 when none does.
    pub fn locate(&self, x: i64, y: i64) -> (r: usize)
        requires
            self.wf(),
        ensures
            r < 9,
            r as int == located(self@, x as int, y as int),
    {
        let mut i: usize = 0;
        while i < self.cells.len()
            invariant
                self.wf(),
                i <= 9,
                locate_from(self@, x as int, y as int, 0) == locate_from(
                    self@,
                    x as int,
                    y as int,
                    i as int,
                ),
            decreases 9 - i,
        {
            if self.cells[i].bounds.contains(x, y) {
                return i;
            }
            i = i + 1;
        }
        0
    }

    /// Put `token` in cell `index`. Whether the cell was empty is the caller's
    /// concern: the cell is overwritten either way.
    pub fn place(&mut self, index: usize, token: Token) -> (r: Result<(), BoardError>)
        requires
            old(self).wf(),
        ensures
            final(self).wf(),
            index < 9 ==> r == Ok::<(), BoardError>(()) && final(self)@ == old(self)@.update(
                index as int,
                Cell { token, bounds: old(self)@[index as int].bounds },
            ),
            index >= 9 ==> r == Err::<(), BoardError>(BoardError::InvalidIndex) && final(self)@
                == old(self)@,
    {
        if index >= self.cells.len() {
            return Err(BoardError::InvalidIndex);
        }
        let bounds = self.cells[index].bounds;
        self.cells.set(index, Cell { token, bounds });
        Ok(())
    }

    /// Empty every cell; the geometry stays.
    pub fn reset(&mut self)
        requires
            old(self).wf(),
        ensures
            final(self).wf(),
            all_empty(final(self)@),
            forall|i: int| 0 <= i < 9 ==> #[trigger] final(self)@[i].bounds == old(self)@[i].bounds,
    {
        let mut i: usize = 0;
        while i < 9
            invariant
                self.wf(),
                i <= 9,
                forall|j: int| 0 <= j < i ==> #[trigger] self@[j].token == Token::Empty,
            decreases 9 - i,
        {
            let bounds = self.cells[i].bounds;
            self.cells.set(i, Cell { token: Token::Empty, bounds });
            i = i + 1;
        }
    }

    /// The occupant of cell `index`.
    pub fn token_at(&self, index: usize) -> (r: Token)
        requires
            self.wf(),
            index < 9,
        ensures
            r == self@[index as int].token,
    {
        self.cells[index].token
    }

    /// The occupants of the nine cells, in index order.
    pub fn tokens(&self) -> (r: Vec<Token>)
        requires
            self.wf(),
        ensures
            r@ == tokens_of(self@),
    {
        let mut r: Vec<Token> = Vec::new();
        let mut i: usize = 0;
        while i < 9
            invariant
                self.wf(),
                i <= 9,
                r@ == tokens_of(self@).subrange(0, i as int),
            decreases 9 - i,
        {
            r.push(self.cells[i].token);
            i = i + 1;
            assert(r@ == tokens_of(self@).subrange(0, i as int));
        }
        assert(r@ == tokens_of(self@));
        r
    }

    /// A copy of the cells, for drawing.
    pub fn snapshot(&self) -> (r: Vec<Cell>)
        ensures
            r@ == self@,
    {
        let mut r: Vec<Cell> = Vec::new();
        let mut i: usize = 0;
        while i < self.cells.len()
            invariant
                i <= self@.len(),
                r@ == self@.subrange(0, i as int),
            decreases self@.len() - i,
        {
            r.push(self.cells[i]);
            i = i + 1;
        }
        assert(r@ == self@);
        r
    }
}

/// The four dividing bars between the cells, as `(x, y, width, height)`.
pub fn dividers() -> (r: Vec<Rect>)
    ensures
        r@ == dividers_spec(),
{
    let r = vec![
        Rect { x: 195, y: 0, width: 10, height: 595 },
        Rect { x: 395, y: 0, width: 10, height: 595 },
        Rect { x: 5, y: 195, width: 595, height: 10 },
        Rect { x: 5, y: 395, width: 595, height: 10 },
    ];
    assert(r@ == dividers_spec());
    r
}

} // verus!

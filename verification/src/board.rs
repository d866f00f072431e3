//! The 3×3 board: marks, cells, positions and winning lines.

use vstd::prelude::*;

verus! {

/// The symbol a side places on the board.
#[derive(Clone, Copy, Debug, PartialEq, Eq, Structural)]
pub enum Mark {
    X,
    O,
}

/// One of the nine slots of the board.
#[derive(Clone, Copy, Debug, PartialEq, Eq, Structural)]
pub enum Cell {
    Empty,
    Taken(Mark),
}

impl Mark {
    /// The mark of the opposing side.
    pub open spec fn other(self) -> Mark {
        match self {
            Mark::X => Mark::O,
            Mark::O => Mark::X,
        }
    }

    /// The character that stands for the mark on a rendered board.
    pub open spec fn spec_symbol(self) -> char {
        match self {
            Mark::X => 'X',
            Mark::O => 'O',
        }
    }

    /// The character that stands for the mark on a rendered board.
    #[verifier::when_used_as_spec(spec_symbol)]
    pub fn symbol(self) -> (c: char)
        ensures
            c == self.spec_symbol(),
    {
        match self {
            Mark::X => 'X',
            Mark::O => 'O',
        }
    }
}

/// Why a move was turned down.
#[derive(Clone, Copy, Debug, PartialEq, Eq, Structural)]
pub enum MoveError {
    /// The position is outside 1..=9 or its cell is already taken.
    InvalidMove,
    /// The text is not an unsigned integer.
    ParseFailure,
}

impl MoveError {
    /// What the player is told about the error.
    pub open spec fn spec_describe(self) -> Seq<char> {
        match self {
            MoveError::InvalidMove => "Please input a number, between 1 and 9, not already chosen!"@,
            MoveError::ParseFailure => "Please input a valid unsigned integer!"@,
        }
    }

    /// What the player is told about the error.
    pub fn describe(self) -> (text: &'static str)
        ensures
            text@ == self.spec_describe(),
    {
        match self {
            MoveError::InvalidMove => "Please input a number, between 1 and 9, not already chosen!",
            MoveError::ParseFailure => "Please input a valid unsigned integer!",
        }
    }
}

/// Row and column of a 1-based position, counted row by row.
pub open spec fn location_of(position: int) -> (int, int) {
    ((position - 1) / 3, (position - 1) % 3)
}

/// Turns a position number into its row and column on the board.
pub fn move_to_board_location(game_move: u32) -> (location: (usize, usize))
    requires
        game_move >= 1,
    ensures
        location.0 == location_of(game_move as int).0,
        location.1 == location_of(game_move as int).1,
        game_move <= 9 ==> location.0 < 3 && location.1 < 3 && 3 * location.0 + location.1 + 1
            == game_move,
{
    let row: u32 = (game_move - 1) / 3;
    let col: u32 = (game_move - 1) % 3;
    (row as usize, col as usize)
}

/// The nine cells of a board on which nothing has been placed.
pub open spec fn empty_cells() -> Seq<Cell> {
    Seq::new(9, |i: int| Cell::Empty)
}

/// A move to `position` is legal: the position is on the board and its cell is empty.
pub open spec fn legal(cells: Seq<Cell>, position: int) -> bool {
    1 <= position <= 9 && cells[position - 1] == Cell::Empty
}

/// The cells after an attempt to place `mark` at `position`: the cell is
/// written if the move is legal, and nothing changes if it is not.
pub open spec fn placed(cells: Seq<Cell>, position: int, mark: Mark) -> Seq<Cell> {
    if legal(cells, position) {
        cells.update(position - 1, Cell::Taken(mark))
    } else {
        cells
    }
}

/// No cell is empty.
pub open spec fn full(cells: Seq<Cell>) -> bool {
    forall|i: int| 0 <= i < 9 ==> cells[i] != Cell::Empty
}

/// The cell indices of line `k`: the rows for `k` in 0..3, the columns for `k`
/// in 3..6, then the diagonal from the top left and the one from the top right.
pub open spec fn line(k: int) -> (int, int, int) {
    if 0 <= k < 3 {
        (3 * k, 3 * k + 1, 3 * k + 2)
    } else if 3 <= k < 6 {
        (k - 3, k, k + 3)
    } else if k == 6 {
        (0, 4, 8)
    } else {
        (2, 4, 6)
    }
}

/// All three cells of line `k` hold `mark`.
pub open spec fn line_held(cells: Seq<Cell>, k: int, mark: Mark) -> bool {
    &&& cells[line(k).0] == Cell::Taken(mark)
    &&& cells[line(k).1] == Cell::Taken(mark)
    &&& cells[line(k).2] == Cell::Taken(mark)
}

/// `mark` holds at least one of the eight lines.
pub open spec fn has_line(cells: Seq<Cell>, mark: Mark) -> bool {
    exists|k: int| 0 <= k < 8 && #[trigger] line_held(cells, k, mark)
}

/// At most one of the two marks holds a line.
pub open spec fn single_winner(cells: Seq<Cell>) -> bool {
    !(has_line(cells, Mark::X) && has_line(cells, Mark::O))
}

/// The mark that holds a complete line, if any. Should both marks hold one,
/// which no game played by the rules reaches, `X` is named.
pub open spec fn winner_of(cells: Seq<Cell>) -> Option<Mark> {
    if has_line(cells, Mark::X) {
        Some(Mark::X)
    } else if has_line(cells, Mark::O) {
        Some(Mark::O)
    } else {
        None
    }
}

/// The digit that labels the empty cell at `index`: '1' for the first cell, '9' for the last.
pub open spec fn label(index: int) -> char {
    ('1' as int + index) as char
}

/// What is shown for the cell at `index`: its mark, or else the number of its position.
pub open spec fn symbol_at(cells: Seq<Cell>, index: int) -> char {
    match cells[index] {
        Cell::Taken(mark) => mark.spec_symbol(),
        Cell::Empty => label(index),
    }
}

/// The nine display symbols of a board, row by row.
pub open spec fn rendering(cells: Seq<Cell>) -> Seq<char> {
    Seq::new(9, |i: int| symbol_at(cells, i))
}

/// The grid of nine cells. A cell that has been taken is never written again.
#[derive(Clone, Copy, Debug)]
pub struct Board {
    cells: [Cell; 9],
}

impl View for Board {
    type V = Seq<Cell>;

    /// The cells row by row: position `n` is at index `n - 1`.
    closed spec fn view(&self) -> Seq<Cell> {
        self.cells@
    }
}

impl Board {
    /// Every board has nine cells.
    pub proof fn lemma_nine_cells(self)
        ensures
            self@.len() == 9,
    {
    }

    /// A board with nothing placed on it.
    pub fn new() -> (board: Board)
        ensures
            board@ == empty_cells(),
    {
        let board = Board { cells: [Cell::Empty; 9] };
        board
    }

    /// The cell in row `row` and column `col`.
    pub fn cell(&self, row: usize, col: usize) -> (cell: Cell)
        requires
            row < 3,
            col < 3,
        ensures
            cell == self@[3 * row + col],
    {
        self.cells[3 * row + col]
    }

    /// Whether a mark may be placed at `position`.
    pub fn is_legal(&self, position: u32) -> (ok: bool)
        ensures
            ok == legal(self@, position as int),
    {
        if 1 <= position && position <= 9 {
            let (row, col) = move_to_board_location(position);
            self.cell(row, col) == Cell::Empty
        } else {
            false
        }
    }

    /// Writes `mark` into the cell at `position`, unless the move is not legal,
    /// in which case the board stays as it was.
    pub fn place(&mut self, position: u32, mark: Mark) -> (result: Result<(), MoveError>)
        ensures
            final(self)@ == placed(old(self)@, position as int, mark),
            result is Ok <==> legal(old(self)@, position as int),
            result is Err ==> result == Err::<(), MoveError>(MoveError::InvalidMove),
    {
        if !self.is_legal(position) {
            return Err(MoveError::InvalidMove);
        }
        let (row, col) = move_to_board_location(position);
        self.cells[3 * row + col] = Cell::Taken(mark);
        Ok(())
    }

    /// Whether no cell is empty.
    pub fn is_full(&self) -> (is_full: bool)
        ensures
            is_full == full(self@),
    {
        let mut index: usize = 0;
        while index < 9
            invariant
                index <= 9,
                forall|i: int| 0 <= i < index ==> self@[i] != Cell::Empty,
            decreases 9 - index,
        {
            if self.cells[index] == Cell::Empty {
                return false;
            }
            index += 1;
        }
        true
    }

    /// Whether all three cells of line `k` hold `mark`.
    fn holds_line(&self, k: usize, mark: Mark) -> (held: bool)
        requires
            k < 8,
        ensures
            held == line_held(self@, k as int, mark),
    {
        let (a, b, c): (usize, usize, usize) = if k < 3 {
            (3 * k, 3 * k + 1, 3 * k + 2)
        } else if k < 6 {
            (k - 3, k, k + 3)
        } else if k == 6 {
            (0, 4, 8)
        } else {
            (2, 4, 6)
        };
        self.cells[a] == Cell::Taken(mark) && self.cells[b] == Cell::Taken(mark) && self.cells[c]
            == Cell::Taken(mark)
    }

    /// Whether `mark` holds one of the eight lines.
    pub fn has_won(&self, mark: Mark) -> (won: bool)
        ensures
            won == has_line(self@, mark),
    {
        let mut k: usize = 0;
        while k < 8
            invariant
                k <= 8,
                forall|j: int| 0 <= j < k ==> !line_held(self@, j, mark),
            decreases 8 - k,
        {
            if self.holds_line(k, mark) {
                return true;
            }
            k += 1;
        }
        false
    }

    /// The mark that holds a complete row, column or diagonal, if there is one.
    pub fn winner(&self) -> (winner: Option<Mark>)
        ensures
            winner == winner_of(self@),
    {
        if self.has_won(Mark::X) {
            Some(Mark::X)
        } else if self.has_won(Mark::O) {
            Some(Mark::O)
        } else {
            None
        }
    }

    /// The nine display symbols, row by row: a cell's mark if it is taken,
    /// else the digit of its position.
    pub fn render(&self) -> (symbols: Vec<char>)
        ensures
            symbols@ == rendering(self@),
    {
        let mut symbols: Vec<char> = Vec::new();
        let mut index: u8 = 0;
        while index < 9
            invariant
                index <= 9,
                symbols@.len() == index,
                forall|i: int| 0 <= i < index ==> symbols@[i] == symbol_at(self@, i),
            decreases 9 - index,
        {
            let symbol: char = match self.cells[index as usize] {
                Cell::Taken(mark) => mark.symbol(),
                Cell::Empty => ('1' as u8 + index) as char,
            };
            symbols.push(symbol);
            index += 1;
        }
        symbols
    }
}

/// A board with nothing placed on it has no winner and is not full.
pub proof fn lemma_empty_board_is_open()
    ensures
        winner_of(empty_cells()) is None,
        !full(empty_cells()),
{
    assert(empty_cells()[0] == Cell::Empty);
}

/// A winner holds a line, and there is none exactly where neither mark holds
/// one; a mark that holds a line while the other holds none is the winner.
pub proof fn lemma_winner_holds_a_line(cells: Seq<Cell>, mark: Mark)
    ensures
        winner_of(cells) == Some(mark) ==> has_line(cells, mark),
        winner_of(cells) is None <==> !has_line(cells, Mark::X) && !has_line(cells, Mark::O),
        has_line(cells, mark) && !has_line(cells, mark.other()) ==> winner_of(cells) == Some(
            mark,
        ),
{
}

/// Placing the same mark in the three cells of any one row, column or
/// diagonal of an empty board makes that mark the winner.
pub proof fn lemma_filled_line_wins(k: int, mark: Mark)
    requires
        0 <= k < 8,
    ensures
        winner_of(
            placed(
                placed(placed(empty_cells(), line(k).0 + 1, mark), line(k).1 + 1, mark),
                line(k).2 + 1,
                mark,
            ),
        ) == Some(mark),
{
    let one = placed(empty_cells(), line(k).0 + 1, mark);
    let two = placed(one, line(k).1 + 1, mark);
    let three = placed(two, line(k).2 + 1, mark);
    assert(line_held(three, k, mark));
    assert forall|j: int| 0 <= j < 8 implies !line_held(three, j, mark.other()) by {
    }
}

/// A cell that is taken stays as it is whatever is placed, and only the
/// cell of a legal move is written.
pub proof fn lemma_taken_cells_stay(cells: Seq<Cell>, position: int, mark: Mark, i: int)
    requires
        cells.len() == 9,
        0 <= i < 9,
    ensures
        placed(cells, position, mark).len() == 9,
        cells[i] is Taken ==> placed(cells, position, mark)[i] == cells[i],
        placed(cells, position, mark)[i] != cells[i] ==> i == position - 1 && legal(cells, position),
{
}

} // verus!

//! The bot: a deliberately weak opponent that picks among the empty cells at
//! random, without looking ahead.

use crate::board::{full, legal, Board, Cell};
use vstd::prelude::*;

verus! {

/// The legal positions among the first `n`, in ascending order.
pub open spec fn legal_among(cells: Seq<Cell>, n: int) -> Seq<u32> {
    Seq::new(n as nat, |i: int| (i + 1) as u32).filter(|p: u32| legal(cells, p as int))
}

/// All legal positions of a board, in ascending order.
pub open spec fn legal_positions(cells: Seq<Cell>) -> Seq<u32> {
    legal_among(cells, 9)
}

/// The position that a drawn number selects: with `n` legal positions, the one
/// at index `draw % n` in ascending order. No number selects anything on a
/// full board.
pub open spec fn bot_choice(cells: Seq<Cell>, draw: u32) -> Option<u32> {
    let options = legal_positions(cells);
    if options.len() == 0 {
        None
    } else {
        Some(options[draw as int % options.len() as int])
    }
}

/// What `legal_among` holds: legal positions only, and every legal position
/// among the first `n`.
pub proof fn lemma_legal_among(cells: Seq<Cell>, n: int)
    requires
        0 <= n <= 9,
    ensures
        legal_among(cells, n).len() <= n,
        forall|j: int|
            0 <= j < legal_among(cells, n).len() ==> 1 <= #[trigger] legal_among(cells, n)[j] <= n
                && legal(cells, legal_among(cells, n)[j] as int),
        forall|p: int|
            1 <= p <= n && legal(cells, p) ==> legal_among(cells, n).contains(p as u32),
    decreases n,
{
    reveal(Seq::filter);
    if n > 0 {
        let all = Seq::new(n as nat, |i: int| (i + 1) as u32);
        assert(all.drop_last() =~= Seq::new((n - 1) as nat, |i: int| (i + 1) as u32));
        lemma_legal_among(cells, n - 1);
        let before = legal_among(cells, n - 1);
        let now = legal_among(cells, n);
        assert forall|p: int| 1 <= p <= n && legal(cells, p) implies now.contains(p as u32) by {
            if p != n {
                let j = choose|j: int| 0 <= j < before.len() && before[j] == p as u32;
                assert(now[j] == p as u32);
            }
        }
    }
}

/// The bot finds a move exactly on a board that is not full, and the move it
/// finds is legal, whatever number was drawn.
pub proof fn lemma_bot_choice_is_legal(cells: Seq<Cell>, draw: u32)
    requires
        cells.len() == 9,
    ensures
        bot_choice(cells, draw) is None <==> full(cells),
        bot_choice(cells, draw) matches Some(p) ==> legal(cells, p as int),
{
    lemma_legal_among(cells, 9);
    let options = legal_positions(cells);
    if options.len() == 0 {
        assert forall|i: int| 0 <= i < 9 implies cells[i] != Cell::Empty by {
            if cells[i] == Cell::Empty {
                assert(legal(cells, i + 1));
            }
        }
    }
}

/// Draws a number with `rand::random::<u32>()`, which takes it from the
/// thread-local generator of the `rand` crate. Nothing is claimed of the
/// number: any `u32` may come back, and two calls need not agree. `rand`
/// panics if the operating system gives it no seed for the generator.
#[verifier::external_body]
fn random_number() -> u32 {
    rand::random::<u32>()
}

/// The legal positions of `board`, in ascending order.
pub fn open_positions(board: &Board) -> (positions: Vec<u32>)
    ensures
        positions@ == legal_positions(board@),
{
    let mut positions: Vec<u32> = Vec::new();
    let mut position: u32 = 1;
    while position <= 9
        invariant
            1 <= position <= 10,
            positions@ == legal_among(board@, position - 1),
        decreases 10 - position,
    {
        proof {
            reveal(Seq::filter);
            let all = Seq::new(position as nat, |i: int| (i + 1) as u32);
            assert(all.drop_last() =~= Seq::new((position - 1) as nat, |i: int| (i + 1) as u32));
        }
        if board.is_legal(position) {
            positions.push(position);
        }
        position += 1;
    }
    positions
}

/// The move that the drawn number selects on `board`.
pub fn choose_move(board: &Board, draw: u32) -> (choice: Option<u32>)
    ensures
        choice == bot_choice(board@, draw),
{
    let positions = open_positions(board);
    if positions.len() == 0 {
        None
    } else {
        proof {
            lemma_legal_among(board@, 9);
        }
        let index: usize = (draw % positions.len() as u32) as usize;
        Some(positions[index])
    }
}

/// Picks a move for the bot at random among the legal positions of `board`.
/// Which one comes back is left to chance; it is the choice of some number.
pub fn random_move(board: &Board) -> (choice: Option<u32>)
    ensures
        exists|draw: u32| choice == #[trigger] bot_choice(board@, draw),
        choice is None <==> full(board@),
        choice matches Some(p) ==> legal(board@, p as int),
{
    let draw = random_number();
    proof {
        board.lemma_nine_cells();
        lemma_bot_choice_is_legal(board@, draw);
    }
    choose_move(board, draw)
}

} // verus!

//! A session of matches between the player and the bot, as a state machine.
//!
//! The session decides; whoever drives it reads the player's lines, shows the
//! board and the messages, and calls the transition that the state asks for.

use crate::board::{
    empty_cells, full, has_line, legal, lemma_empty_board_is_open, line_held, location_of,
    move_to_board_location, placed, single_winner, winner_of, Board, Cell, Mark, MoveError,
};
use crate::bot::{bot_choice, choose_move, random_move};
use crate::input::{accepts_rematch, parse_number, parsed_number, wants_rematch};
use vstd::prelude::*;

verus! {

/// One of the two sides of a match.
#[derive(Clone, Copy, Debug, PartialEq, Eq, Structural)]
pub enum Side {
    Player,
    Bot,
}

impl Side {
    /// The side that moves after this one.
    pub open spec fn spec_next(self) -> Side {
        match self {
            Side::Player => Side::Bot,
            Side::Bot => Side::Player,
        }
    }

    /// The side that moves after this one.
    #[verifier::when_used_as_spec(spec_next)]
    pub fn next(self) -> (side: Side)
        ensures
            side == self.spec_next(),
    {
        match self {
            Side::Player => Side::Bot,
            Side::Bot => Side::Player,
        }
    }

    /// The mark that this side places: `X` for the player, `O` for the bot.
    pub open spec fn spec_mark(self) -> Mark {
        match self {
            Side::Player => Mark::X,
            Side::Bot => Mark::O,
        }
    }

    /// The mark that this side places: `X` for the player, `O` for the bot.
    #[verifier::when_used_as_spec(spec_mark)]
    pub fn mark(self) -> (mark: Mark)
        ensures
            mark == self.spec_mark(),
    {
        match self {
            Side::Player => Mark::X,
            Side::Bot => Mark::O,
        }
    }

    /// The side that places `mark`.
    pub open spec fn spec_of_mark(mark: Mark) -> Side {
        match mark {
            Mark::X => Side::Player,
            Mark::O => Side::Bot,
        }
    }

    /// The side that places `mark`.
    #[verifier::when_used_as_spec(spec_of_mark)]
    pub fn of_mark(mark: Mark) -> (side: Side)
        ensures
            side == Side::spec_of_mark(mark),
    {
        match mark {
            Mark::X => Side::Player,
            Mark::O => Side::Bot,
        }
    }
}

/// Where a session stands.
#[derive(Clone, Copy, Debug, PartialEq, Eq, Structural)]
pub enum State {
    /// The match is on and the given side is to move.
    AwaitingMove(Side),
    /// The given mark has completed a line.
    Decided(Mark),
    /// The board has filled up without a complete line.
    Drawn,
    /// The match is over and the player is asked whether to play another.
    RematchPrompt,
    /// The player has declined: nothing further happens.
    Finished,
}

impl State {
    /// What the player is told when a match has ended: whether the player
    /// won or lost a decided match, or that a drawn one has no winner. There
    /// is nothing to tell in any other state.
    pub open spec fn spec_outcome_message(self) -> Option<Seq<char>> {
        match self {
            State::Decided(mark) => Some(
                if Side::spec_of_mark(mark) == Side::Player {
                    "You won!"@
                } else {
                    "You lost!"@
                },
            ),
            State::Drawn => Some("Nobody won!"@),
            _ => None,
        }
    }

    /// What the player is told when a match has ended, `None` while it has not.
    pub fn outcome_message(self) -> (message: Option<&'static str>)
        ensures
            match message {
                Some(text) => self.spec_outcome_message() == Some(text@),
                None => self.spec_outcome_message() is None,
            },
    {
        match self {
            State::Decided(mark) => match Side::of_mark(mark) {
                Side::Player => Some("You won!"),
                Side::Bot => Some("You lost!"),
            },
            State::Drawn => Some("Nobody won!"),
            _ => None,
        }
    }
}

/// A session as a mathematical value: the cells of its board row by row,
/// the side whose turn it is, and its state.
pub struct GameView {
    pub cells: Seq<Cell>,
    pub turn: Side,
    pub state: State,
}

/// How a match stands on `cells` when `mover` is the next to move: decided
/// if a line is complete, drawn if the board is full, else awaiting `mover`.
pub open spec fn standing(cells: Seq<Cell>, mover: Side) -> State {
    match winner_of(cells) {
        Some(mark) => State::Decided(mark),
        None => if full(cells) {
            State::Drawn
        } else {
            State::AwaitingMove(mover)
        },
    }
}

impl GameView {
    /// A session at its start: an empty board, and the player to move.
    pub open spec fn fresh() -> GameView {
        GameView { cells: empty_cells(), turn: Side::Player, state: State::AwaitingMove(Side::Player) }
    }

    /// A session taken up on given cells with `turn` as the side to move.
    pub open spec fn resumed(cells: Seq<Cell>, turn: Side) -> GameView {
        GameView { cells, turn, state: standing(cells, turn) }
    }

    /// The state agrees with the board: while a move is awaited no line is
    /// complete, a cell is free and the side awaited is the one whose turn it
    /// is; a decided match names the mark that holds a line; a drawn match
    /// has a full board and no line.
    pub open spec fn wf(self) -> bool {
        &&& self.cells.len() == 9
        &&& match self.state {
            State::AwaitingMove(side) => side == self.turn && winner_of(self.cells) is None
                && !full(self.cells),
            State::Decided(mark) => winner_of(self.cells) == Some(mark),
            State::Drawn => winner_of(self.cells) is None && full(self.cells),
            State::RematchPrompt => true,
            State::Finished => true,
        }
    }

    /// The side whose turn it is may move to `position`: a move is awaited
    /// and the position is legal on the board.
    pub open spec fn can_move(self, position: int) -> bool {
        self.state is AwaitingMove && legal(self.cells, position)
    }

    /// The session after the side whose turn it is has tried `position`.
    /// A move that cannot be made changes nothing. One that can writes the
    /// side's mark; then the match is decided, or drawn, or the other side
    /// is awaited.
    pub open spec fn after_move(self, position: int) -> GameView {
        if self.can_move(position) {
            let cells = placed(self.cells, position, self.turn.spec_mark());
            let state = standing(cells, self.turn.spec_next());
            GameView {
                cells,
                turn: if state is AwaitingMove {
                    self.turn.spec_next()
                } else {
                    self.turn
                },
                state,
            }
        } else {
            self
        }
    }

    /// The session once the end of a match has been shown: a decided or drawn
    /// match goes on to the rematch prompt, any other state stays.
    pub open spec fn concluded(self) -> GameView {
        if self.state is Decided || self.state is Drawn {
            GameView { state: State::RematchPrompt, ..self }
        } else {
            self
        }
    }

    /// The session after the answer to the rematch prompt: a new match on
    /// an empty board if the player accepts, the end if not. In any other
    /// state an answer changes nothing.
    pub open spec fn answered(self, accepts: bool) -> GameView {
        if self.state is RematchPrompt {
            if accepts {
                GameView::fresh()
            } else {
                GameView { state: State::Finished, ..self }
            }
        } else {
            self
        }
    }

    /// The session after the moves of `moves` have been tried in order.
    pub open spec fn after_moves(self, moves: Seq<int>) -> GameView
        decreases moves.len(),
    {
        if moves.len() == 0 {
            self
        } else {
            self.after_moves(moves.drop_last()).after_move(moves.last())
        }
    }
}

/// What becomes of a line of input that is offered as a move on `cells`:
/// the position it writes if that is a legal move, else the reason why not.
pub open spec fn validated(cells: Seq<Cell>, text: Seq<char>) -> Result<u32, MoveError> {
    match parsed_number(text) {
        None => Err(MoveError::ParseFailure),
        Some(position) => if legal(cells, position as int) {
            Ok(position)
        } else {
            Err(MoveError::InvalidMove)
        },
    }
}

/// A session: the board, the side whose turn it is, and the state.
#[derive(Clone, Copy, Debug)]
pub struct Game {
    board: Board,
    current_turn: Side,
    state: State,
}

impl View for Game {
    type V = GameView;

    closed spec fn view(&self) -> GameView {
        GameView { cells: self.board@, turn: self.current_turn, state: self.state }
    }
}

impl Game {
    /// Every session that exists is well formed.
    #[verifier::type_invariant]
    closed spec fn inv(self) -> bool {
        self@.wf()
    }

    /// A session at its start: an empty board, and the player to move.
    pub fn new() -> (game: Game)
        ensures
            game@ == GameView::fresh(),
            game@.wf(),
    {
        let board = Board::new();
        proof {
            lemma_empty_board_is_open();
        }
        Game { board, current_turn: Side::Player, state: State::AwaitingMove(Side::Player) }
    }

    /// A session taken up on `board`, with `current_turn` as the side to
    /// move if the match on it is still open.
    pub fn with_board(board: Board, current_turn: Side) -> (game: Game)
        ensures
            game@ == GameView::resumed(board@, current_turn),
            game@.wf(),
    {
        let state = standing_of(&board, current_turn);
        proof {
            board.lemma_nine_cells();
        }
        Game { board, current_turn, state }
    }

    /// The state of the session.
    pub fn state(&self) -> (state: State)
        ensures
            state == self@.state,
    {
        self.state
    }

    /// The side whose turn it is.
    pub fn current_turn(&self) -> (side: Side)
        ensures
            side == self@.turn,
    {
        self.current_turn
    }

    /// The board of the session.
    pub fn board(&self) -> (board: &Board)
        ensures
            board@ == self@.cells,
    {
        &self.board
    }

    /// Turns a position number into its row and column on the board.
    pub fn move_to_board_location(game_move: u32) -> (location: (usize, usize))
        requires
            game_move >= 1,
        ensures
            location.0 == location_of(game_move as int).0,
            location.1 == location_of(game_move as int).1,
            game_move <= 9 ==> location.0 < 3 && location.1 < 3 && 3 * location.0 + location.1 + 1
                == game_move,
    {
        move_to_board_location(game_move)
    }

    /// Whether `unchecked_move` is a position on the board whose cell is empty.
    pub fn is_valid_move(&self, unchecked_move: u32) -> (valid: bool)
        ensures
            valid == legal(self@.cells, unchecked_move as int),
    {
        self.board.is_legal(unchecked_move)
    }

    /// Reads a line of the player's input as a move. The line must write an
    /// unsigned integer, and that integer must be a legal position.
    pub fn validate_player_input(&self, player_input: &str) -> (result: Result<u32, MoveError>)
        ensures
            result == validated(self@.cells, player_input@),
    {
        match parse_number(player_input) {
            None => Err(MoveError::ParseFailure),
            Some(number) => {
                if self.is_valid_move(number) {
                    Ok(number)
                } else {
                    Err(MoveError::InvalidMove)
                }
            },
        }
    }

    /// The move that a drawn number selects for the bot: `None` on a full board.
    pub fn choose_bot_move(&self, draw: u32) -> (choice: Option<u32>)
        ensures
            choice == bot_choice(self@.cells, draw),
    {
        choose_move(&self.board, draw)
    }

    /// A move for the bot, picked at random among the legal positions:
    /// `None` only on a full board.
    pub fn get_bot_move(&self) -> (choice: Option<u32>)
        ensures
            exists|draw: u32| choice == #[trigger] bot_choice(self@.cells, draw),
            choice is None <==> full(self@.cells),
            choice matches Some(position) ==> legal(self@.cells, position as int),
    {
        let choice = random_move(&self.board);
        proof {
            let draw = choose|draw: u32| choice == #[trigger] bot_choice(self.board@, draw);
            assert(choice == bot_choice(self@.cells, draw));
        }
        choice
    }

    /// The side that moves after the one whose turn it is.
    pub fn get_next_turn(&self) -> (side: Side)
        ensures
            side == self@.turn.spec_next(),
    {
        self.current_turn.next()
    }

    /// Whether a mark holds a complete line on the board.
    pub fn game_is_won(&self) -> (won: bool)
        ensures
            won == winner_of(self@.cells) is Some,
    {
        self.board.winner().is_some()
    }

    /// Makes the move `valid_move` for the side whose turn it is. Where no
    /// move is awaited or the position is not legal, the move is turned down
    /// and the session stays as it was.
    pub fn play_turn(&mut self, valid_move: u32) -> (result: Result<(), MoveError>)
        ensures
            final(self)@ == old(self)@.after_move(valid_move as int),
            final(self)@.wf(),
            result is Ok <==> old(self)@.can_move(valid_move as int),
            result is Err ==> result == Err::<(), MoveError>(MoveError::InvalidMove),
    {
        proof {
            use_type_invariant(&*self);
        }
        let side = match self.state {
            State::AwaitingMove(side) => side,
            _ => {
                return Err(MoveError::InvalidMove);
            },
        };
        let mut board = self.board;
        match board.place(valid_move, side.mark()) {
            Err(error) => Err(error),
            Ok(()) => {
                let state = standing_of(&board, side.next());
                let current_turn = match state {
                    State::AwaitingMove(next) => next,
                    _ => side,
                };
                proof {
                    board.lemma_nine_cells();
                }
                *self = Game { board, current_turn, state };
                Ok(())
            },
        }
    }

    /// Moves a decided or drawn match on to the rematch prompt, once its end
    /// has been shown. In any other state nothing changes.
    pub fn conclude(&mut self)
        ensures
            final(self)@ == old(self)@.concluded(),
            final(self)@.wf(),
    {
        proof {
            use_type_invariant(&*self);
        }
        match self.state {
            State::Decided(_) | State::Drawn => {
                *self = Game {
                    board: self.board,
                    current_turn: self.current_turn,
                    state: State::RematchPrompt,
                };
            },
            _ => {},
        }
    }

    /// Takes the player's answer at the rematch prompt, `None` standing for
    /// an answer that could not be read: yes starts a new match, anything
    /// else ends the session. In any other state nothing changes.
    pub fn answer_rematch(&mut self, answer: Option<&str>)
        ensures
            final(self)@ == old(self)@.answered(
                accepts_rematch(
                    match answer {
                        Some(text) => Some(text@),
                        None => None,
                    },
                ),
            ),
            final(self)@.wf(),
    {
        proof {
            use_type_invariant(&*self);
        }
        match self.state {
            State::RematchPrompt => {
                if wants_rematch(answer) {
                    self.reset();
                } else {
                    *self = Game {
                        board: self.board,
                        current_turn: self.current_turn,
                        state: State::Finished,
                    };
                }
            },
            _ => {},
        }
    }

    /// Starts over: an empty board, and the player to move.
    pub fn reset(&mut self)
        ensures
            final(self)@ == GameView::fresh(),
            final(self)@.wf(),
    {
        *self = Game::new();
    }
}

/// How the match on `board` stands when `mover` is the next to move.
fn standing_of(board: &Board, mover: Side) -> (state: State)
    ensures
        state == standing(board@, mover),
{
    match board.winner() {
        Some(mark) => State::Decided(mark),
        None => {
            if board.is_full() {
                State::Drawn
            } else {
                State::AwaitingMove(mover)
            }
        },
    }
}

/// The two sides take turns: the side after the next is the side itself.
pub proof fn lemma_sides_alternate(side: Side)
    ensures
        side.spec_next() != side,
        side.spec_next().spec_next() == side,
        side.spec_next().spec_mark() == side.spec_mark().other(),
        Side::spec_of_mark(side.spec_mark()) == side,
{
}

/// A move that can be made writes the mover's mark into the cell of its
/// position and nothing else. It gives the other mark no line, so only the
/// mover can have won by it; if neither that nor a full board ends the
/// match, the other side is awaited.
pub proof fn lemma_move_outcome(game: GameView, position: int)
    requires
        game.wf(),
        game.can_move(position),
    ensures
        game.after_move(position).cells == game.cells.update(
            position - 1,
            Cell::Taken(game.turn.spec_mark()),
        ),
        !has_line(game.after_move(position).cells, game.turn.spec_mark().other()),
        game.after_move(position).state == State::Decided(game.turn.spec_mark())
            || game.after_move(position).state == State::Drawn || game.after_move(position).state
            == State::AwaitingMove(game.turn.spec_next()),
        game.after_move(position).state is AwaitingMove ==> game.after_move(position).turn
            == game.turn.spec_next(),
{
    let other = game.turn.spec_mark().other();
    let cells = game.after_move(position).cells;
    if has_line(cells, other) {
        let k = choose|k: int| 0 <= k < 8 && #[trigger] line_held(cells, k, other);
        assert(line_held(game.cells, k, other));
    }
}

/// A move that cannot be made, because none is awaited or the position is
/// not legal, leaves the session as it was, and so does trying it again.
pub proof fn lemma_rejected_move_changes_nothing(game: GameView, position: int)
    requires
        !game.can_move(position),
    ensures
        game.after_move(position) == game,
        game.after_move(position).after_move(position) == game,
{
}

/// Every transition takes a well-formed session to a well-formed session.
pub proof fn lemma_transitions_keep_wf(game: GameView, position: int, accepts: bool)
    requires
        game.wf(),
    ensures
        game.after_move(position).wf(),
        game.concluded().wf(),
        game.answered(accepts).wf(),
{
    lemma_empty_board_is_open();
}

/// A match played from the start never shows a line of each mark: play
/// stops when the first line is complete. So where at most one mark holds a
/// line, that is still so after every transition, and a decided match names
/// the one mark that holds a line.
pub proof fn lemma_play_keeps_single_winner(game: GameView, position: int, accepts: bool)
    requires
        game.wf(),
        single_winner(game.cells),
    ensures
        single_winner(GameView::fresh().cells),
        single_winner(game.after_move(position).cells),
        single_winner(game.concluded().cells),
        single_winner(game.answered(accepts).cells),
        game.state matches State::Decided(mark) ==> has_line(game.cells, mark) && !has_line(
            game.cells,
            mark.other(),
        ),
{
    lemma_empty_board_is_open();
    if game.can_move(position) {
        lemma_move_outcome(game, position);
    }
}

/// A mark, once placed, stays where it is until a rematch is accepted: no
/// move writes a taken cell, and neither the end of a match nor a declined
/// rematch touches the board.
pub proof fn lemma_marks_stay_until_rematch(game: GameView, position: int, i: int)
    requires
        game.wf(),
        0 <= i < 9,
    ensures
        game.cells[i] is Taken ==> game.after_move(position).cells[i] == game.cells[i],
        game.concluded().cells == game.cells,
        game.answered(false).cells == game.cells,
{
}

/// Once the player has declined a rematch nothing changes the session.
pub proof fn lemma_finished_is_terminal(game: GameView, position: int, accepts: bool)
    requires
        game.state is Finished,
    ensures
        game.after_move(position) == game,
        game.concluded() == game,
        game.answered(accepts) == game,
{
}

/// The side that makes move number `k` of a match, counted from zero: the
/// player makes the even ones, the bot the odd ones.
pub open spec fn mover(k: int) -> Side {
    if k % 2 == 0 {
        Side::Player
    } else {
        Side::Bot
    }
}

/// Turns alternate from the start of a match: if every move of `moves` could
/// be made when its turn came, then move number `k` was awaited from
/// `mover(k)` and wrote that side's mark.
pub proof fn lemma_turns_alternate(moves: Seq<int>, k: int)
    requires
        0 <= k < moves.len(),
        forall|i: int|
            0 <= i < moves.len() ==> (#[trigger] GameView::fresh().after_moves(
                moves.take(i),
            )).can_move(moves[i]),
    ensures
        GameView::fresh().after_moves(moves.take(k)).wf(),
        GameView::fresh().after_moves(moves.take(k)).state == State::AwaitingMove(mover(k)),
        GameView::fresh().after_moves(moves.take(k + 1)).cells[moves[k] - 1] == Cell::Taken(
            mover(k).spec_mark(),
        ),
    decreases k,
{
    let start = GameView::fresh();
    let before = start.after_moves(moves.take(k));
    if k == 0 {
        lemma_empty_board_is_open();
    } else {
        lemma_turns_alternate(moves, k - 1);
        let earlier = start.after_moves(moves.take(k - 1));
        assert(moves.take(k).drop_last() =~= moves.take(k - 1));
        lemma_move_outcome(earlier, moves[k - 1]);
        lemma_transitions_keep_wf(earlier, moves[k - 1], true);
    }
    assert(moves.take(k + 1).drop_last() =~= moves.take(k));
    lemma_move_outcome(before, moves[k]);
}

} // verus!

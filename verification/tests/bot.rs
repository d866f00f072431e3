use tic_tac_toe::board::{Board, Mark};
use tic_tac_toe::bot::{choose_move, open_positions, random_move};
use tic_tac_toe::game::{Game, Side};

fn board_with(taken: &[u32]) -> Board {
    let mut board = Board::new();
    for &position in taken {
        board.place(position, Mark::X).unwrap();
    }
    board
}

#[test]
fn open_positions_are_the_empty_cells_in_order() {
    assert_eq!(open_positions(&Board::new()), vec![1, 2, 3, 4, 5, 6, 7, 8, 9]);
    assert_eq!(open_positions(&board_with(&[1, 5])), vec![2, 3, 4, 6, 7, 8, 9]);
    assert_eq!(open_positions(&board_with(&[9, 8, 7, 6, 4, 3, 2, 1])), vec![5]);
    assert_eq!(
        open_positions(&board_with(&[1, 2, 3, 4, 5, 6, 7, 8, 9])),
        Vec::<u32>::new()
    );
}

#[test]
fn a_draw_selects_by_its_remainder() {
    let board = board_with(&[1, 5]);
    assert_eq!(choose_move(&board, 0), Some(2));
    assert_eq!(choose_move(&board, 1), Some(3));
    assert_eq!(choose_move(&board, 6), Some(9));
    assert_eq!(choose_move(&board, 7), Some(2));
    assert_eq!(choose_move(&board, 10), Some(6));
    assert_eq!(choose_move(&board, u32::MAX), Some(6));
    let empty = Board::new();
    for draw in 0..100u32 {
        assert_eq!(choose_move(&empty, draw), Some(draw % 9 + 1));
    }
}

#[test]
fn no_draw_selects_on_a_full_board() {
    let board = board_with(&[1, 2, 3, 4, 5, 6, 7, 8, 9]);
    for draw in [0, 1, 8, 9, u32::MAX] {
        assert_eq!(choose_move(&board, draw), None);
    }
    assert_eq!(random_move(&board), None);
    assert_eq!(Game::with_board(board, Side::Bot).get_bot_move(), None);
}

#[test]
fn the_only_empty_cell_is_always_selected() {
    let board = board_with(&[1, 2, 3, 4, 6, 7, 8, 9]);
    for draw in [0, 1, 2, 1000, u32::MAX] {
        assert_eq!(choose_move(&board, draw), Some(5));
    }
    for _ in 0..50 {
        assert_eq!(random_move(&board), Some(5));
    }
}

#[test]
fn a_random_move_is_always_legal() {
    let board = board_with(&[2, 4, 6, 8]);
    let game = Game::with_board(board, Side::Bot);
    for _ in 0..500 {
        let position = game.get_bot_move().unwrap();
        assert!(game.is_valid_move(position));
        assert!([1, 3, 5, 7, 9].contains(&position));
    }
}

#[test]
fn random_moves_are_not_all_the_same() {
    let game = Game::new();
    let first = game.get_bot_move().unwrap();
    let mut differs = false;
    for _ in 0..400 {
        if game.get_bot_move().unwrap() != first {
            differs = true;
        }
    }
    assert!(differs);
}

#[test]
fn the_session_selects_as_the_board_does() {
    let board = board_with(&[3, 7]);
    let game = Game::with_board(board, Side::Bot);
    for draw in 0..30u32 {
        assert_eq!(game.choose_bot_move(draw), choose_move(&board, draw));
    }
    assert_eq!(game.choose_bot_move(2), Some(4));
}

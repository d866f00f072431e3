use tic_tac_toe::board::{Board, Mark};
use tic_tac_toe::game::{Game, Side};

fn game_with(marks: &[(u32, Mark)]) -> Game {
    let mut board = Board::new();
    for &(position, mark) in marks {
        board.place(position, mark).unwrap();
    }
    Game::with_board(board, Side::Player)
}

#[test]
fn test_is_valid_move() {
    let test_game = game_with(&[(9, Mark::X)]);

    for test_move in 1..9 {
        assert!(test_game.is_valid_move(test_move));
    }

    for bad_move in 10..20 {
        assert!(!test_game.is_valid_move(bad_move));
    }
}

#[test]
fn test_validate_player_input() {
    let test_game = game_with(&[(9, Mark::X)]);

    for test_move in 1..9 {
        assert!(test_game
            .validate_player_input(&test_move.to_string())
            .is_ok());
    }

    for bad_move in 10..20 {
        assert!(test_game
            .validate_player_input(&bad_move.to_string())
            .is_err());
    }
}

#[test]
fn test_move_to_board_location() {
    assert_eq!(Game::move_to_board_location(1), (0, 0));
    assert_eq!(Game::move_to_board_location(2), (0, 1));
    assert_eq!(Game::move_to_board_location(3), (0, 2));

    assert_eq!(Game::move_to_board_location(4), (1, 0));
    assert_eq!(Game::move_to_board_location(5), (1, 1));
    assert_eq!(Game::move_to_board_location(6), (1, 2));

    assert_eq!(Game::move_to_board_location(7), (2, 0));
    assert_eq!(Game::move_to_board_location(8), (2, 1));
    assert_eq!(Game::move_to_board_location(9), (2, 2));
}

#[test]
fn test_get_next_turn() {
    let test_game = Game::new();

    assert_eq!(test_game.get_next_turn(), Side::Bot);

    let test_game = Game::with_board(Board::new(), Side::Bot);

    assert_eq!(test_game.get_next_turn(), Side::Player);
}

#[test]
fn test_game_is_not_won() {
    let test_game = Game::new();

    assert!(!test_game.game_is_won());
}

#[test]
fn test_game_is_won_row() {
    let test_game = game_with(&[(4, Mark::O), (5, Mark::O), (6, Mark::O)]);

    assert!(test_game.game_is_won());
}

#[test]
fn test_game_is_won_col() {
    let test_game = game_with(&[(3, Mark::X), (6, Mark::X), (9, Mark::X)]);

    assert!(test_game.game_is_won());
}

#[test]
fn test_game_is_won_diag() {
    let test_game = game_with(&[(3, Mark::X), (5, Mark::X), (7, Mark::X)]);

    assert!(test_game.game_is_won());
}

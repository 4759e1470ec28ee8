use chess::game::Game;
use chess::notation::pos_from_string;
use chess::types::GameState;

// check test framework
#[test]
fn it_works() {
    assert_eq!(2 + 2, 4);
}

// example test
// check that game state is in progress after initialisation
#[test]
fn game_in_progress_after_init() {
    let game = Game::new();
    println!("{}", game.render());
    assert_eq!(game.get_game_state(), GameState::InProgress);
}

#[test]
fn get_piece() {
    let game = Game::new();
    let position = &"A1".to_string();
    let piece = game.get_piece(pos_from_string(position).unwrap());
    let icon = if piece.is_none() { "*".to_string() } else { piece.unwrap().icon() };
    println!("\n\nPiece at {}: {}\n", position, icon);
}

#[test]
fn possib_moves() {
    let game = Game::new();
    let position = "E1".to_string().to_owned();
    let possible_moves = game.get_possible_moves(position);
    if let Ok(moves) = possible_moves {
        println!();
        for pos in moves {
            println!("{}", pos);
        }
    }
}

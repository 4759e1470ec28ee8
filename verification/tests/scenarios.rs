use chess::attack::{attacked_squares, in_check, king_square};
use chess::board::Board;
use chess::game::{classify, new_game, Game};
use chess::movegen::{all_legal_moves, legal_moves};
use chess::notation::{pos_from_string, pos_to_string};
use chess::types::{Color, GameState, MoveError, Piece, PieceKind, Square};

fn sq(name: &str) -> Square {
    pos_from_string(name).unwrap()
}

fn empty_board(active: Color) -> Board {
    Board {
        squares: vec![None; 64],
        active,
        castle_wk: false,
        castle_wq: false,
        castle_bk: false,
        castle_bq: false,
        en_passant: None,
        halfmove_clock: 0,
        fullmove_number: 1,
    }
}

fn put(b: &mut Board, name: &str, kind: PieceKind, color: Color) {
    let s = sq(name);
    b.squares[s.rank as usize * 8 + s.file as usize] = Some(Piece { kind, color });
}

fn game_of(board: Board) -> Game {
    Game { board, state: GameState::InProgress, promotion_choice: PieceKind::Queen }
}

#[test]
fn square_names_round_trip_all_64() {
    for file in 0u8..8 {
        for rank in 0u8..8 {
            let s = Square { file, rank };
            let name = pos_to_string(s);
            assert_eq!(pos_from_string(&name), Ok(s));
        }
    }
}

#[test]
fn notation_rejects_bad_text() {
    assert_eq!(pos_from_string(""), Err(MoveError::InvalidNotation));
    assert_eq!(pos_from_string("e"), Err(MoveError::InvalidNotation));
    assert_eq!(pos_from_string("e44"), Err(MoveError::InvalidNotation));
    assert_eq!(pos_from_string("i1"), Err(MoveError::InvalidNotation));
    assert_eq!(pos_from_string("e9"), Err(MoveError::InvalidNotation));
    assert_eq!(pos_from_string("a0"), Err(MoveError::InvalidNotation));
    assert_eq!(pos_from_string("4e"), Err(MoveError::InvalidNotation));
}

#[test]
fn notation_accepts_both_cases() {
    assert_eq!(pos_from_string("E4"), Ok(Square { file: 4, rank: 3 }));
    assert_eq!(pos_from_string("e4"), Ok(Square { file: 4, rank: 3 }));
    assert_eq!(pos_to_string(Square { file: 4, rank: 3 }), "e4");
}

#[test]
fn pawn_destinations_from_initial() {
    let game = new_game();
    let dests = game.legal_destinations("e2").unwrap();
    assert_eq!(dests, vec!["e3".to_string(), "e4".to_string()]);
}

#[test]
fn knight_destinations_from_initial() {
    let game = new_game();
    let dests = game.legal_destinations("g1").unwrap();
    assert_eq!(dests, vec!["f3".to_string(), "h3".to_string()]);
}

#[test]
fn fools_mate_is_checkmate() {
    let mut game = new_game();
    assert_eq!(game.make_move("f2".to_string(), "f3".to_string()), Ok(GameState::InProgress));
    assert_eq!(game.make_move("e7".to_string(), "e5".to_string()), Ok(GameState::InProgress));
    assert_eq!(game.make_move("g2".to_string(), "g4".to_string()), Ok(GameState::InProgress));
    assert_eq!(game.make_move("d8".to_string(), "h4".to_string()), Ok(GameState::Checkmate));
    assert_eq!(game.get_game_state(), GameState::Checkmate);
    assert_eq!(all_legal_moves(&game.board, Color::White).len(), 0);
    assert_eq!(
        game.make_move("a2".to_string(), "a3".to_string()),
        Err(MoveError::GameAlreadyOver)
    );
}

#[test]
fn cornered_king_is_stalemated() {
    let mut board = empty_board(Color::Black);
    put(&mut board, "a1", PieceKind::King, Color::White);
    put(&mut board, "c2", PieceKind::King, Color::Black);
    put(&mut board, "b8", PieceKind::Queen, Color::Black);
    let mut game = game_of(board);
    assert_eq!(game.make_move("b8".to_string(), "b3".to_string()), Ok(GameState::Stalemate));
    assert_eq!(game.get_game_state(), GameState::Stalemate);
    assert!(!in_check(&game.board, Color::White));
    assert_eq!(all_legal_moves(&game.board, Color::White).len(), 0);
}

#[test]
fn en_passant_removes_the_passed_pawn() {
    let mut game = new_game();
    assert!(game.make_move("e2".to_string(), "e4".to_string()).is_ok());
    assert!(game.make_move("a7".to_string(), "a6".to_string()).is_ok());
    assert!(game.make_move("e4".to_string(), "e5".to_string()).is_ok());
    assert!(game.make_move("d7".to_string(), "d5".to_string()).is_ok());
    assert_eq!(game.board.en_passant, Some(sq("d6")));
    assert_eq!(game.make_move("e5".to_string(), "d6".to_string()), Ok(GameState::InProgress));
    assert_eq!(game.get_piece(sq("d5")), None);
    assert_eq!(game.get_piece(sq("d6")), Some(Piece { kind: PieceKind::Pawn, color: Color::White }));
    assert_eq!(game.get_piece(sq("e5")), None);
}

#[test]
fn castling_through_an_attacked_square_is_illegal() {
    let mut board = empty_board(Color::White);
    board.castle_wk = true;
    put(&mut board, "e1", PieceKind::King, Color::White);
    put(&mut board, "h1", PieceKind::Rook, Color::White);
    put(&mut board, "e8", PieceKind::King, Color::Black);
    put(&mut board, "f8", PieceKind::Rook, Color::Black);
    let mut game = game_of(board);
    assert_eq!(
        game.apply_move("e1", "g1", None),
        Err(MoveError::IllegalMove)
    );
    assert_eq!(game.get_piece(sq("e1")), Some(Piece { kind: PieceKind::King, color: Color::White }));
}

#[test]
fn castling_with_a_safe_path_succeeds() {
    let mut board = empty_board(Color::White);
    board.castle_wk = true;
    put(&mut board, "e1", PieceKind::King, Color::White);
    put(&mut board, "h1", PieceKind::Rook, Color::White);
    put(&mut board, "e8", PieceKind::King, Color::Black);
    let mut game = game_of(board);
    assert!(game.apply_move("e1", "g1", None).is_ok());
    assert_eq!(game.get_piece(sq("g1")), Some(Piece { kind: PieceKind::King, color: Color::White }));
    assert_eq!(game.get_piece(sq("f1")), Some(Piece { kind: PieceKind::Rook, color: Color::White }));
    assert_eq!(game.get_piece(sq("h1")), None);
    assert_eq!(game.get_piece(sq("e1")), None);
}

#[test]
fn promotion_yields_exactly_four_choices() {
    let mut board = empty_board(Color::White);
    put(&mut board, "a7", PieceKind::Pawn, Color::White);
    put(&mut board, "e1", PieceKind::King, Color::White);
    put(&mut board, "e8", PieceKind::King, Color::Black);
    let moves = legal_moves(&board, sq("a7"));
    assert_eq!(moves.len(), 4);
    let mut kinds = Vec::new();
    for mv in &moves {
        assert_eq!(mv.from, sq("a7"));
        assert_eq!(mv.to, sq("a8"));
        assert!(mv.promotion.is_some());
        kinds.push(mv.promotion.unwrap());
    }
    assert!(kinds.contains(&PieceKind::Queen));
    assert!(kinds.contains(&PieceKind::Rook));
    assert!(kinds.contains(&PieceKind::Bishop));
    assert!(kinds.contains(&PieceKind::Knight));

    let mut game = game_of(board);
    assert_eq!(game.apply_move("a7", "a8", None), Err(MoveError::IllegalMove));
    assert!(game.apply_move("a7", "a8", Some(PieceKind::Knight)).is_ok());
    assert_eq!(
        game.get_piece(sq("a8")),
        Some(Piece { kind: PieceKind::Knight, color: Color::White })
    );
}

#[test]
fn set_promotion_picks_the_promoted_kind() {
    let mut board = empty_board(Color::White);
    put(&mut board, "a7", PieceKind::Pawn, Color::White);
    put(&mut board, "e1", PieceKind::King, Color::White);
    put(&mut board, "e8", PieceKind::King, Color::Black);
    let mut game = game_of(board);
    game.set_promotion("rook".to_string());
    assert!(game.make_move("a7".to_string(), "a8".to_string()).is_ok());
    assert_eq!(
        game.get_piece(sq("a8")),
        Some(Piece { kind: PieceKind::Rook, color: Color::White })
    );
}

#[test]
fn rejected_moves_change_nothing() {
    let mut game = new_game();
    let before = game.render();
    assert_eq!(game.apply_move("e2", "e5", None), Err(MoveError::IllegalMove));
    assert_eq!(game.apply_move("e7", "e5", None), Err(MoveError::WrongSideToMove));
    assert_eq!(game.apply_move("e4", "e5", None), Err(MoveError::NoPieceAtSource));
    assert_eq!(game.apply_move("zz", "e4", None), Err(MoveError::InvalidNotation));
    assert_eq!(game.render(), before);
    assert_eq!(game.get_game_state(), GameState::InProgress);
}

#[test]
fn applied_move_never_leaves_own_king_in_check() {
    let mut game = new_game();
    assert!(game.make_move("e2".to_string(), "e4".to_string()).is_ok());
    assert!(!in_check(&game.board, Color::White));
    assert!(game.make_move("e7".to_string(), "e5".to_string()).is_ok());
    assert!(!in_check(&game.board, Color::Black));
}

#[test]
fn pinned_piece_cannot_expose_the_king() {
    let mut board = empty_board(Color::White);
    put(&mut board, "e1", PieceKind::King, Color::White);
    put(&mut board, "e2", PieceKind::Rook, Color::White);
    put(&mut board, "e8", PieceKind::Queen, Color::Black);
    put(&mut board, "a8", PieceKind::King, Color::Black);
    let mut game = game_of(board);
    assert_eq!(game.apply_move("e2", "d2", None), Err(MoveError::IllegalMove));
    assert!(game.apply_move("e2", "e5", None).is_ok());
}

#[test]
fn check_is_reported_as_a_state() {
    let mut board = empty_board(Color::White);
    put(&mut board, "e1", PieceKind::King, Color::White);
    put(&mut board, "e8", PieceKind::Queen, Color::Black);
    put(&mut board, "a8", PieceKind::King, Color::Black);
    assert!(in_check(&board, Color::White));
    assert_eq!(classify(&board), GameState::Check);
}

#[test]
fn king_square_finds_the_unique_king() {
    let game = new_game();
    assert_eq!(king_square(&game.board, Color::White), Ok(sq("e1")));
    assert_eq!(king_square(&game.board, Color::Black), Ok(sq("e8")));
    let mut board = empty_board(Color::White);
    put(&mut board, "a1", PieceKind::King, Color::White);
    put(&mut board, "h8", PieceKind::King, Color::White);
    assert_eq!(king_square(&board, Color::White), Err(MoveError::InvariantViolation));
    assert_eq!(king_square(&board, Color::Black), Err(MoveError::InvariantViolation));
}

#[test]
fn attacked_squares_of_a_lone_rook() {
    let mut board = empty_board(Color::White);
    put(&mut board, "a1", PieceKind::Rook, Color::White);
    let squares = attacked_squares(&board, Color::White);
    assert_eq!(squares.len(), 14);
    assert!(squares.contains(&sq("a8")));
    assert!(squares.contains(&sq("h1")));
    assert!(!squares.contains(&sq("b2")));
    assert!(!squares.contains(&sq("a1")));
}

#[test]
fn pawns_attack_diagonally_but_move_straight() {
    let mut board = empty_board(Color::White);
    put(&mut board, "e4", PieceKind::Pawn, Color::White);
    put(&mut board, "e5", PieceKind::Pawn, Color::Black);
    let squares = attacked_squares(&board, Color::White);
    assert!(squares.contains(&sq("d5")));
    assert!(squares.contains(&sq("f5")));
    assert!(!squares.contains(&sq("e5")));
    let moves = legal_moves(&board, sq("e4"));
    assert_eq!(moves.len(), 0);
}

#[test]
fn render_shows_the_initial_position() {
    let game = new_game();
    let expected = "  a b c d e f g h\n\
                    8 \u{265C} \u{265E} \u{265D} \u{265B} \u{265A} \u{265D} \u{265E} \u{265C} \n\
                    7 \u{265F} \u{265F} \u{265F} \u{265F} \u{265F} \u{265F} \u{265F} \u{265F} \n\
                    6 * * * * * * * * \n\
                    5 * * * * * * * * \n\
                    4 * * * * * * * * \n\
                    3 * * * * * * * * \n\
                    2 \u{2659} \u{2659} \u{2659} \u{2659} \u{2659} \u{2659} \u{2659} \u{2659} \n\
                    1 \u{2656} \u{2658} \u{2657} \u{2655} \u{2654} \u{2657} \u{2658} \u{2656} \n";
    assert_eq!(game.render(), expected);
}

#[test]
fn sliding_pieces_stop_at_blockers() {
    let mut board = empty_board(Color::White);
    put(&mut board, "d4", PieceKind::Bishop, Color::White);
    put(&mut board, "f6", PieceKind::Pawn, Color::Black);
    put(&mut board, "b2", PieceKind::Pawn, Color::White);
    let moves = legal_moves(&board, sq("d4"));
    let dests: Vec<Square> = moves.iter().map(|m| m.to).collect();
    assert!(dests.contains(&sq("e5")));
    assert!(dests.contains(&sq("f6")));
    assert!(!dests.contains(&sq("g7")));
    assert!(dests.contains(&sq("c3")));
    assert!(!dests.contains(&sq("b2")));
    assert!(!dests.contains(&sq("a1")));
}

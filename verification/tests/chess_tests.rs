use game_platform::chess::{CastlingRights, ChessBoard, PieceType};
use game_platform::types::{GameOutcome, Player};

#[test]
fn initial_position_layout() {
    let board = ChessBoard::new();
    assert_eq!(board.squares.len(), 64);
    let rook = board.squares[0].unwrap();
    assert_eq!(rook.piece_type, PieceType::Rook);
    assert_eq!(rook.owner, Player::One);
    let king = board.squares[4].unwrap();
    assert_eq!(king.piece_type, PieceType::King);
    let pawn = board.squares[12].unwrap();
    assert_eq!(pawn.piece_type, PieceType::Pawn);
    let black_queen = board.squares[59].unwrap();
    assert_eq!(black_queen.piece_type, PieceType::Queen);
    assert_eq!(black_queen.owner, Player::Two);
    for i in 16..48 {
        assert!(board.squares[i].is_none());
    }
    assert_eq!(board.active_player, Player::One);
    assert_eq!(board.castling_rights, CastlingRights::default());
    assert_eq!(board.halfmove_clock, 0);
    assert_eq!(board.fullmove_number, 1);
}

#[test]
fn pawn_double_step_sets_en_passant_square() {
    let mut board = ChessBoard::new();
    let outcome = board.make_move(12, 28, None, 7).unwrap();
    assert_eq!(outcome, GameOutcome::InProgress);
    assert_eq!(board.en_passant_square, Some(20));
    assert_eq!(board.active_player, Player::Two);
    assert_eq!(board.halfmove_clock, 0);
    let moved = board.squares[28].unwrap();
    assert_eq!(moved.piece_type, PieceType::Pawn);
    assert!(moved.has_moved);
    assert!(board.squares[12].is_none());
    assert_eq!(board.move_history.len(), 1);
    assert_eq!(board.move_history[0].notation, "e4");
}

#[test]
fn empty_source_fails_and_board_is_unchanged() {
    let mut board = ChessBoard::new();
    let before = board.clone();
    let result = board.make_move(20, 28, None, 0);
    assert_eq!(result.unwrap_err(), "No piece at source");
    assert_eq!(board.squares, before.squares);
    assert_eq!(board.active_player, before.active_player);
    assert_eq!(board.halfmove_clock, before.halfmove_clock);
    assert_eq!(board.move_history.len(), 0);
    assert_eq!(board.en_passant_square, None);
}

#[test]
fn out_of_range_and_ownership_errors() {
    let mut board = ChessBoard::new();
    assert_eq!(board.make_move(64, 0, None, 0).unwrap_err(), "Invalid square");
    assert_eq!(board.make_move(0, 64, None, 0).unwrap_err(), "Invalid square");
    // Black piece while white is to move.
    assert_eq!(board.make_move(52, 36, None, 0).unwrap_err(), "Not your piece");
    // Capturing one's own piece.
    assert_eq!(board.make_move(0, 8, None, 0).unwrap_err(), "Cannot capture own piece");
}

#[test]
fn capture_is_recorded_and_resets_halfmove_clock() {
    let mut board = ChessBoard::new();
    // Knights out, then white knight takes the black pawn on e5... here by
    // plain slot geometry: knight b1 (1) -> c3 (18) -> d5 (35), black pawn
    // d7 (51) -> d5 (35) first.
    board.make_move(1, 18, None, 0).unwrap();
    board.make_move(51, 35, None, 0).unwrap();
    assert!(board.halfmove_clock == 0); // pawn move resets
    board.make_move(18, 35, None, 0).unwrap(); // knight captures pawn
    assert_eq!(board.halfmove_clock, 0);
    assert_eq!(board.captured_black, vec![PieceType::Pawn]);
    let record = board.move_history.last().unwrap();
    assert_eq!(record.captured, Some(PieceType::Pawn));
    assert_eq!(record.notation, "Nxd5");
}

#[test]
fn hundred_halfmoves_without_pawn_or_capture_is_a_draw() {
    let mut board = ChessBoard::new();
    // Knights shuffle back and forth; each move bumps the halfmove clock.
    let cycle: [(u8, u8); 4] = [(6, 21), (62, 45), (21, 6), (45, 62)];
    let mut moves = 0u32;
    let mut last = GameOutcome::InProgress;
    'outer: loop {
        for (from, to) in cycle {
            last = board.make_move(from, to, None, 0).unwrap();
            moves += 1;
            if last != GameOutcome::InProgress {
                break 'outer;
            }
        }
    }
    assert_eq!(last, GameOutcome::Draw);
    assert_eq!(moves, 100);
    assert_eq!(board.halfmove_clock, 100);
}

#[test]
fn kingside_castle_moves_rook_and_clears_rights() {
    let mut board = ChessBoard::new();
    // Clear f1 and g1 so the king can step across.
    board.squares[5] = None;
    board.squares[6] = None;
    let outcome = board.make_move(4, 6, None, 0).unwrap();
    assert_eq!(outcome, GameOutcome::InProgress);
    let king = board.squares[6].unwrap();
    assert_eq!(king.piece_type, PieceType::King);
    let rook = board.squares[5].unwrap();
    assert_eq!(rook.piece_type, PieceType::Rook);
    assert!(rook.has_moved);
    assert!(board.squares[7].is_none());
    assert!(!board.castling_rights.white_kingside);
    assert!(!board.castling_rights.white_queenside);
    assert!(board.castling_rights.black_kingside);
    let record = board.move_history.last().unwrap();
    assert!(record.is_castle);
    assert_eq!(record.notation, "O-O");
}

#[test]
fn en_passant_capture_removes_bypassed_pawn() {
    let mut board = ChessBoard::new();
    board.make_move(12, 28, None, 0).unwrap(); // white e2-e4
    board.make_move(57, 42, None, 0).unwrap(); // black knight
    board.make_move(28, 36, None, 0).unwrap(); // white e4-e5
    board.make_move(51, 35, None, 0).unwrap(); // black d7-d5, passing d6
    assert_eq!(board.en_passant_square, Some(43));
    let outcome = board.make_move(36, 43, None, 0).unwrap(); // exd6 e.p.
    assert_eq!(outcome, GameOutcome::InProgress);
    assert!(board.squares[35].is_none(), "bypassed pawn removed");
    assert_eq!(board.squares[43].unwrap().piece_type, PieceType::Pawn);
    let record = board.move_history.last().unwrap();
    assert!(record.is_en_passant);
    assert_eq!(*board.captured_black.last().unwrap(), PieceType::Pawn);
}

#[test]
fn promotion_defaults_to_queen_and_honors_choice() {
    let mut board = ChessBoard::new();
    // Put a white pawn one step from the last rank, with the slot above free.
    board.squares[52] = Some(game_platform::chess::ChessPiece {
        piece_type: PieceType::Pawn,
        owner: Player::One,
        has_moved: true,
    });
    board.squares[60] = None;
    let mut with_choice = board.clone();

    board.make_move(52, 60, None, 0).unwrap();
    assert_eq!(board.squares[60].unwrap().piece_type, PieceType::Queen);

    with_choice.make_move(52, 60, Some(PieceType::Knight), 0).unwrap();
    assert_eq!(with_choice.squares[60].unwrap().piece_type, PieceType::Knight);
    let record = with_choice.move_history.last().unwrap();
    assert_eq!(record.notation, "e8=N");
}

#[test]
fn rook_move_clears_one_castling_right() {
    let mut board = ChessBoard::new();
    board.squares[8] = None; // free a2 so the rook can leave a1
    board.make_move(0, 8, None, 0).unwrap();
    assert!(!board.castling_rights.white_queenside);
    assert!(board.castling_rights.white_kingside);
}

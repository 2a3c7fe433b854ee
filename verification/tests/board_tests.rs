use chess_core::bitboard::BitBoard;
use chess_core::board::Board;
use chess_core::fen::{FenParseError, DEFAULT_FEN};
use chess_core::piece::{Piece, Player};
use chess_core::piece_move::{MoveParseError, PieceMove, PieceMoveType};
use chess_core::square::Square;

fn board(fen: &str) -> Board {
    let b = Board::from_fen(fen).expect("fen should parse");
    assert!(b.is_wf(), "fen should give a well-formed board: {fen}");
    b
}

#[test]
fn fen_round_trip_start_position() {
    let b = board(DEFAULT_FEN);
    assert_eq!(b.to_fen(), DEFAULT_FEN);
}

#[test]
fn fen_round_trip_mid_game() {
    let fen = "r1bqkbnr/pppp1ppp/2n5/4p3/4P3/5N2/PPPP1PPP/RNBQKB1R w KQkq - 0 1";
    assert_eq!(board(fen).to_fen(), fen);
}

#[test]
fn fen_round_trip_one_castling_right() {
    let fen = "4k3/8/8/8/8/8/8/4K2R w K - 0 1";
    assert_eq!(board(fen).to_fen(), fen);
}

#[test]
fn fen_round_trip_no_castling_rights() {
    let fen = "8/8/4k3/8/8/4K3/8/8 w - - 0 1";
    assert_eq!(board(fen).to_fen(), fen);
}

#[test]
fn fen_round_trip_en_passant_target() {
    let fen = "rnbqkbnr/ppp1pppp/8/3pP3/8/8/PPPP1PPP/RNBQKBNR w KQkq d6 0 1";
    assert_eq!(board(fen).to_fen(), fen);
}

#[test]
fn fen_round_trip_black_to_move() {
    let fen = "rnbqkbnr/pppppppp/8/8/4P3/8/PPPP1PPP/RNBQKBNR b KQkq e3 0 1";
    assert_eq!(board(fen).to_fen(), fen);
}

#[test]
fn fen_rejects_bad_piece_letter() {
    assert_eq!(
        Board::from_fen("rnbqkbnr/pppppppp/8/8/8/8/PPPPPPPP/RNBQKBNX w KQkq - 0 1").unwrap_err(),
        FenParseError::UnrecognizedPiece
    );
}

#[test]
fn fen_rejects_bad_side_to_move() {
    assert_eq!(
        Board::from_fen("8/8/4k3/8/8/4K3/8/8 x - - 0 1").unwrap_err(),
        FenParseError::UnrecognizedSideToMove
    );
}

#[test]
fn fen_rejects_bad_castling_letter() {
    assert_eq!(
        Board::from_fen("8/8/4k3/8/8/4K3/8/8 w X - 0 1").unwrap_err(),
        FenParseError::UnrecognizedCastling
    );
}

#[test]
fn fen_rejects_bad_en_passant_field() {
    assert_eq!(
        Board::from_fen("8/8/4k3/8/8/4K3/8/8 w - e9 0 1").unwrap_err(),
        FenParseError::MalformedEnPassant
    );
}

#[test]
fn start_position_has_twenty_moves() {
    let b = Board::new();
    assert!(b.is_wf());
    assert_eq!(b.get_all_possible_moves().len(), 20);
}

#[test]
fn black_has_twenty_replies_after_king_pawn_opening() {
    let mut b = Board::new();
    let e2e4 = PieceMove::from_algebraic("e2e4").unwrap();
    assert!(b.try_apply_move(e2e4).is_some());
    assert_eq!(b.get_player(), Player::Black);
    assert_eq!(b.get_all_possible_moves().len(), 20);
}

#[test]
fn depth_two_from_start_counts_four_hundred() {
    let base = Board::new();
    let mut total = 0usize;
    for m in base.get_all_possible_moves() {
        let mut b = Board::new();
        assert!(b.try_apply_move(m).is_some());
        assert!(b.is_wf());
        total += b.get_all_possible_moves().len();
    }
    assert_eq!(total, 400);
}

#[test]
fn legal_moves_never_leave_own_king_attacked() {
    // a position with the white king in check: every legal move must resolve it
    let b = board("rnb1kbnr/pppp1ppp/8/4p3/7q/5P2/PPPPP1PP/RNBQKBNR w KQkq - 0 1");
    let mover = b.get_player();
    let moves = b.get_all_possible_moves();
    assert!(!moves.is_empty());
    for m in moves {
        let mut next = b.clone();
        next.apply_move(m);
        assert!(!next.is_in_check(mover), "move {} leaves the king attacked", m.to_algebraic());
    }
}

#[test]
fn undo_inverts_apply_over_a_sequence() {
    let mut b = Board::new();
    let original = b.position;
    for text in ["e2e4", "d7d5", "g1f3", "d5e4", "f3e5"] {
        let m = PieceMove::from_algebraic(text).unwrap();
        assert!(b.try_apply_move(m).is_some(), "{text} should be legal");
        assert!(b.is_wf());
    }
    for _ in 0..5 {
        assert!(b.traverse_back().is_some());
    }
    assert!(b.position.same_as(&original));
    assert!(b.traverse_back().is_none());
}

#[test]
fn traverse_forward_replays_the_undone_move() {
    let mut b = Board::new();
    let e2e4 = PieceMove::from_algebraic("e2e4").unwrap();
    assert!(b.try_apply_move(e2e4).is_some());
    let after = b.position;
    assert!(b.traverse_back().is_some());
    assert!(b.position.same_as(&Board::new().position));
    assert!(b.traverse_forward().is_some());
    assert!(b.position.same_as(&after));
    assert!(b.traverse_forward().is_none());
}

#[test]
fn new_branch_truncates_redo_future() {
    let mut b = Board::new();
    let e2e4 = PieceMove::from_algebraic("e2e4").unwrap();
    let d2d4 = PieceMove::from_algebraic("d2d4").unwrap();
    let e7e5 = PieceMove::from_algebraic("e7e5").unwrap();
    assert!(b.try_apply_move(e2e4).is_some());
    assert!(b.try_apply_move(e7e5).is_some());
    assert_eq!(b.move_history.moves.len(), 2);
    assert!(b.traverse_back().is_some());
    assert!(b.traverse_back().is_some());
    assert!(b.try_apply_move(d2d4).is_some());
    assert_eq!(b.move_history.moves.len(), 1);
    assert_eq!(b.move_history.current, 1);
    assert_eq!(b.move_history.moves[0].piece_move.to_algebraic(), "d2d4");
}

#[test]
fn castling_kingside_moves_king_and_rook() {
    let b = board("4k3/8/8/8/8/8/8/4K2R w K - 0 1");
    let moves = b.get_possible_moves(Square::new(4, 0));
    let castle = moves
        .iter()
        .find(|m| m.move_type == PieceMoveType::Castling)
        .copied()
        .expect("kingside castling should be available");
    assert_eq!(castle.to.file, 6);
    let mut next = b.clone();
    let rt = next.apply_move(castle);
    assert_eq!(rt, PieceMoveType::Castling);
    assert_eq!(next.get_piece(Square::new(6, 0)), Piece::WKing);
    assert_eq!(next.get_piece(Square::new(5, 0)), Piece::WRook);
    assert_eq!(next.get_piece(Square::new(7, 0)), Piece::Empty);
}

#[test]
fn castling_through_attacked_transit_square_is_illegal() {
    // the black rook on f2 attacks f1, which the king would cross
    let b = board("4k3/8/8/8/8/8/5r2/4K2R w K - 0 1");
    let moves = b.get_possible_moves(Square::new(4, 0));
    assert!(moves.iter().all(|m| m.move_type != PieceMoveType::Castling));
}

#[test]
fn castling_through_occupied_square_is_illegal() {
    let b = board("4k3/8/8/8/8/8/8/4KB1R w K - 0 1");
    let moves = b.get_possible_moves(Square::new(4, 0));
    assert!(moves.iter().all(|m| m.move_type != PieceMoveType::Castling));
}

#[test]
fn moving_the_rook_forfeits_that_castling_right() {
    let mut b = board("4k3/8/8/8/8/8/8/4K2R w K - 0 1");
    assert!(b.try_apply_move(PieceMove::from_algebraic("h1h2").unwrap()).is_some());
    assert!(b.try_apply_move(PieceMove::from_algebraic("e8e7").unwrap()).is_some());
    assert!(b.try_apply_move(PieceMove::from_algebraic("h2h1").unwrap()).is_some());
    assert!(b.try_apply_move(PieceMove::from_algebraic("e7e8").unwrap()).is_some());
    // board pieces are back where they started, but the right is gone
    let moves = b.get_possible_moves(Square::new(4, 0));
    assert!(moves.iter().all(|m| m.move_type != PieceMoveType::Castling));
    assert!(b.to_fen().contains(" - "));
}

#[test]
fn double_push_sets_en_passant_for_exactly_one_move() {
    let mut b = Board::new();
    assert!(b.try_apply_move(PieceMove::from_algebraic("e2e4").unwrap()).is_some());
    assert_eq!(b.position.en_passant, Some(Square::new(4, 2)));
    assert!(b.to_fen().contains(" e3 "));
    assert!(b.try_apply_move(PieceMove::from_algebraic("g8f6").unwrap()).is_some());
    assert_eq!(b.position.en_passant, None);
    assert!(b.to_fen().contains(" - "));
}

#[test]
fn en_passant_capture_removes_the_passed_pawn() {
    let mut b = board("rnbqkbnr/ppp1pppp/8/3pP3/8/8/PPPP1PPP/RNBQKBNR w KQkq d6 0 1");
    let moves = b.get_possible_moves(Square::new(4, 4));
    let ep = moves
        .iter()
        .find(|m| m.move_type == PieceMoveType::EnPassant)
        .copied()
        .expect("the en-passant capture should be available");
    assert_eq!(ep.to, Square::new(3, 5));
    let rt = b.apply_move(ep);
    assert_eq!(rt, PieceMoveType::EnPassant);
    assert_eq!(b.get_piece(Square::new(3, 5)), Piece::WPawn);
    assert_eq!(b.get_piece(Square::new(3, 4)), Piece::Empty);
    let record = b.move_history.moves[0];
    assert_eq!(record.captured_piece, Some(Piece::BPawn));
}

#[test]
fn promotion_replaces_the_pawn() {
    let mut b = board("4k3/P7/8/8/8/8/8/4K3 w - - 0 1");
    let m = PieceMove::from_algebraic("a7a8q").unwrap();
    let rt = b.try_apply_move(m).expect("promotion should be legal");
    assert_eq!(rt, PieceMoveType::Promotion(Piece::WQueen));
    assert_eq!(b.get_piece(Square::new(0, 7)), Piece::WQueen);
    assert_eq!(b.get_piece(Square::new(0, 6)), Piece::Empty);
    assert!(b.traverse_back().is_some());
    assert_eq!(b.get_piece(Square::new(0, 6)), Piece::WPawn);
    assert_eq!(b.get_piece(Square::new(0, 7)), Piece::Empty);
}

#[test]
fn back_rank_mate_is_reported_for_the_attacked_side() {
    let b = board("R5k1/5ppp/8/8/8/8/8/6K1 b - - 0 1");
    assert!(b.get_all_possible_moves().is_empty());
    assert!(b.is_in_check(Player::Black));
    assert_eq!(b.has_game_ended(), Some(Some(Player::White)));
}

#[test]
fn stalemate_is_reported_without_a_winner() {
    let b = board("7k/5Q2/6K1/8/8/8/8/8 b - - 0 1");
    assert!(b.get_all_possible_moves().is_empty());
    assert!(!b.is_in_check(Player::Black));
    assert_eq!(b.has_game_ended(), Some(None));
}

#[test]
fn ongoing_game_reports_no_ending() {
    assert_eq!(Board::new().has_game_ended(), None);
}

#[test]
fn illegal_move_is_rejected_and_board_unchanged() {
    let mut b = Board::new();
    let before = b.position;
    assert!(b.try_apply_move(PieceMove::from_algebraic("e2e5").unwrap()).is_none());
    assert!(b.try_apply_move(PieceMove::from_algebraic("e7e5").unwrap()).is_none());
    assert!(b.position.same_as(&before));
}

#[test]
fn algebraic_round_trip() {
    for text in ["e2e4", "a1h8", "e7e8q", "a2a1n", "h7h8r", "b7b8b"] {
        let m = PieceMove::from_algebraic(text).unwrap();
        assert_eq!(m.to_algebraic(), text);
    }
}

#[test]
fn algebraic_rejects_malformed_moves() {
    assert_eq!(PieceMove::from_algebraic("e2e").unwrap_err(), MoveParseError::WrongLength);
    assert_eq!(PieceMove::from_algebraic("i2e4").unwrap_err(), MoveParseError::BadFileLetter);
    assert_eq!(PieceMove::from_algebraic("e9e4").unwrap_err(), MoveParseError::BadRankDigit);
    assert_eq!(
        PieceMove::from_algebraic("e7e8x").unwrap_err(),
        MoveParseError::BadPromotionLetter
    );
    assert_eq!(
        PieceMove::from_algebraic("e4e5q").unwrap_err(),
        MoveParseError::BadPromotionLetter
    );
}

#[test]
fn rev_swaps_the_squares() {
    let m = PieceMove::from_algebraic("e2e4").unwrap();
    let r = m.rev();
    assert_eq!(r.from, m.to);
    assert_eq!(r.to, m.from);
    assert_eq!(r.to_algebraic(), "e4e2");
}

#[test]
fn bitboard_positions_enumerate_ascending() {
    let b = BitBoard(0x8000_0000_0000_0001);
    let squares = b.positions();
    assert_eq!(squares.len(), 2);
    assert_eq!(squares[0], Square::new(0, 0));
    assert_eq!(squares[1], Square::new(7, 7));
    assert!(BitBoard(0).positions().is_empty());
}

#[test]
fn move_history_string_lists_applied_moves() {
    let mut b = Board::new();
    assert_eq!(b.move_history.to_piece_move_string(), "");
    assert!(b.try_apply_move(PieceMove::from_algebraic("e2e4").unwrap()).is_some());
    assert!(b.try_apply_move(PieceMove::from_algebraic("e7e5").unwrap()).is_some());
    assert_eq!(b.move_history.to_piece_move_string(), "e2e4 e7e5");
    assert!(b.traverse_back().is_some());
    assert_eq!(b.move_history.to_piece_move_string(), "e2e4");
}

#[test]
fn history_get_returns_the_current_move() {
    let mut b = Board::new();
    assert!(b.move_history.get().is_none());
    assert!(b.try_apply_move(PieceMove::from_algebraic("e2e4").unwrap()).is_some());
    let h = b.move_history.get().expect("one move was applied");
    assert_eq!(h.piece_move.to_algebraic(), "e2e4");
    assert_eq!(h.captured_piece, None);
}

#[test]
fn square_index_round_trips() {
    for i in 0..64u8 {
        let s = Square::from_index(i);
        assert_eq!(s.index(), i);
    }
    assert_eq!(Square::new(4, 0).index(), 4);
    assert_eq!(Square::new(0, 1).index(), 8);
}

#[test]
fn capture_is_recorded_and_restored() {
    let mut b = Board::new();
    for text in ["e2e4", "d7d5", "e4d5"] {
        assert!(b.try_apply_move(PieceMove::from_algebraic(text).unwrap()).is_some());
    }
    assert_eq!(b.move_history.moves[2].captured_piece, Some(Piece::BPawn));
    assert_eq!(b.get_piece(Square::new(3, 4)), Piece::WPawn);
    assert!(b.traverse_back().is_some());
    assert_eq!(b.get_piece(Square::new(3, 4)), Piece::BPawn);
    assert_eq!(b.get_piece(Square::new(4, 3)), Piece::WPawn);
}

#[test]
fn bare_coordinates_resolve_to_castling_and_en_passant() {
    let mut b = board("4k3/8/8/8/8/8/8/4K2R w K - 0 1");
    let rt = b.request_move(PieceMove::from_algebraic("e1g1").unwrap());
    assert_eq!(rt, Some(PieceMoveType::Castling));
    assert_eq!(b.get_piece(Square::new(5, 0)), Piece::WRook);

    let mut b = board("rnbqkbnr/ppp1pppp/8/3pP3/8/8/PPPP1PPP/RNBQKBNR w KQkq d6 0 1");
    let rt = b.request_move(PieceMove::from_algebraic("e5d6").unwrap());
    assert_eq!(rt, Some(PieceMoveType::EnPassant));
    assert_eq!(b.get_piece(Square::new(3, 4)), Piece::Empty);
}

#[test]
fn request_without_promotion_letter_does_not_promote() {
    let mut b = board("4k3/P7/8/8/8/8/8/4K3 w - - 0 1");
    assert!(b.request_move(PieceMove::from_algebraic("a7a8").unwrap()).is_none());
    let rt = b.request_move(PieceMove::from_algebraic("a7a8r").unwrap());
    assert_eq!(rt, Some(PieceMoveType::Promotion(Piece::WRook)));
}

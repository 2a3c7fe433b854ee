use chess_core::classification::{classify_move, MoveClassification};
use chess_core::piece::Player;
use chess_core::piece_move::PieceMove;
use chess_core::uci::{
    go_depth_command, is_bestmove_line, is_readyok_line, is_uciok_line, parse_bestmove,
    position_command, UciError, UciMessage, UciSession, UciState,
};
use chess_core::uci_info::{
    parse_i32_token, parse_u32_token, tokenize, uci_parse_info, white_perspective_eval, UciEval,
};

#[test]
fn tokenizer_splits_on_space_runs() {
    let toks = tokenize("  info   depth 20 ");
    assert_eq!(toks, vec!["info".to_string(), "depth".to_string(), "20".to_string()]);
    assert!(tokenize("   ").is_empty());
}

#[test]
fn integer_tokens_parse_exactly() {
    assert_eq!(parse_u32_token("0"), Some(0));
    assert_eq!(parse_u32_token("4294967295"), Some(u32::MAX));
    assert_eq!(parse_u32_token("4294967296"), None);
    assert_eq!(parse_u32_token(""), None);
    assert_eq!(parse_u32_token("12a"), None);
    assert_eq!(parse_i32_token("-2147483648"), Some(i32::MIN));
    assert_eq!(parse_i32_token("2147483647"), Some(i32::MAX));
    assert_eq!(parse_i32_token("-2147483649"), None);
    assert_eq!(parse_i32_token("-"), None);
    assert_eq!(parse_i32_token("34"), Some(34));
}

#[test]
fn info_line_parses_depth_and_centipawn_score() {
    let info = uci_parse_info(
        "info depth 20 seldepth 31 multipv 1 score cp 34 nodes 1000 pv e2e4 e7e5",
    )
    .unwrap();
    assert_eq!(info.depth, 20);
    assert_eq!(info.eval, UciEval::Centipawn(34));
}

#[test]
fn info_line_parses_mate_score() {
    let info = uci_parse_info("info depth 12 score mate -3 pv h7h8").unwrap();
    assert_eq!(info.depth, 12);
    assert_eq!(info.eval, UciEval::Mate(-3));
}

#[test]
fn info_line_rejects_bad_integer() {
    assert_eq!(
        uci_parse_info("info depth twenty score cp 34").unwrap_err(),
        UciError::NumericalParseError
    );
    assert_eq!(uci_parse_info("info depth").unwrap_err(), UciError::NumericalParseError);
}

#[test]
fn bestmove_line_parses_the_move() {
    assert!(is_bestmove_line("bestmove e2e4 ponder e7e5"));
    assert!(!is_bestmove_line("info depth 20"));
    let m = parse_bestmove("bestmove e2e4 ponder e7e5").unwrap();
    assert_eq!(m.to_algebraic(), "e2e4");
    assert!(matches!(
        parse_bestmove("bestmove (none)"),
        Err(UciError::PieceMoveParseError(_))
    ));
}

#[test]
fn perspective_correction_negates_for_black() {
    assert_eq!(
        white_perspective_eval(UciEval::Centipawn(34), Player::Black),
        UciEval::Centipawn(-34)
    );
    assert_eq!(
        white_perspective_eval(UciEval::Centipawn(34), Player::White),
        UciEval::Centipawn(34)
    );
    assert_eq!(white_perspective_eval(UciEval::Mate(2), Player::Black), UciEval::Mate(-2));
    assert_eq!(white_perspective_eval(UciEval::Mate(-5), Player::Black), UciEval::Mate(5));
}

#[test]
fn command_text_is_exact() {
    assert_eq!(
        position_command("e2e4 e7e5"),
        "position fen rnbqkbnr/pppppppp/8/8/8/8/PPPPPPPP/RNBQKBNR w KQkq - 0 1 moves e2e4 e7e5"
    );
    assert_eq!(go_depth_command(20), "go depth 20");
    assert_eq!(go_depth_command(7), "go depth 7");
    assert_eq!(go_depth_command(105), "go depth 105");
}

#[test]
fn handshake_walks_to_idle() {
    let (mut s, hello) = UciSession::new();
    assert_eq!(hello, "uci");
    assert_eq!(s.state, UciState::AwaitUciOk);
    let r = s.on_line("id name SomeEngine");
    assert!(r.send.is_empty());
    let r = s.on_line("uciok");
    assert_eq!(r.send, vec!["isready".to_string()]);
    let r = s.on_line("readyok");
    assert_eq!(
        r.send,
        vec!["setoption name Hash value 512".to_string(), "isready".to_string()]
    );
    let r = s.on_line("readyok");
    assert_eq!(r.send, vec!["isready".to_string()]);
    let r = s.on_line("readyok");
    assert!(r.send.is_empty());
    assert_eq!(s.state, UciState::Idle);
}

#[test]
fn search_request_round_trip() {
    let (mut s, _) = UciSession::new();
    s.on_line("uciok");
    s.on_line("readyok");
    s.on_line("readyok");
    s.on_line("readyok");
    assert_eq!(s.state, UciState::Idle);
    let send = s.on_command(&UciMessage::NewMove {
        move_history: "e2e4".to_string(),
        player_to_move: Player::Black,
    });
    assert_eq!(send.len(), 2);
    assert!(send[0].starts_with("position fen "));
    assert!(send[0].ends_with(" moves e2e4"));
    assert_eq!(send[1], "isready");
    let r = s.on_line("readyok");
    assert_eq!(r.send, vec!["go depth 20".to_string()]);
    let r = s.on_line("info depth 20 score cp 34 pv e7e5");
    assert!(r.send.is_empty() && r.best_move.is_none() && r.eval.is_none());
    let r = s.on_line("bestmove e7e5 ponder g1f3");
    assert_eq!(r.best_move.map(|m| m.to_algebraic()), Some("e7e5".to_string()));
    // black was to move, so the engine's +34 becomes -34 for white
    assert_eq!(r.eval, Some(UciEval::Centipawn(-34)));
    assert!(r.error.is_none());
    assert_eq!(s.state, UciState::Idle);
}

#[test]
fn eval_refresh_uses_the_shallow_depth_and_sends_no_move() {
    let (mut s, _) = UciSession::new();
    s.on_line("uciok");
    s.on_line("readyok");
    s.on_line("readyok");
    s.on_line("readyok");
    s.on_command(&UciMessage::UpdateEval {
        move_history: String::new(),
        player_to_move: Player::White,
    });
    let r = s.on_line("readyok");
    assert_eq!(r.send, vec!["go depth 10".to_string()]);
    s.on_line("info depth 10 score mate 2 pv a1a8");
    let r = s.on_line("bestmove a1a8");
    assert!(r.best_move.is_none());
    assert_eq!(r.eval, Some(UciEval::Mate(2)));
}

#[test]
fn close_channel_quits() {
    let (mut s, _) = UciSession::new();
    s.on_line("uciok");
    s.on_line("readyok");
    s.on_line("readyok");
    s.on_line("readyok");
    let send = s.on_command(&UciMessage::CloseChannel);
    assert_eq!(send, vec!["quit".to_string()]);
    assert_eq!(s.state, UciState::Closed);
    // a closed session reacts to nothing
    let r = s.on_line("readyok");
    assert!(r.send.is_empty());
}

#[test]
fn commands_outside_idle_are_dropped() {
    let (mut s, _) = UciSession::new();
    let send = s.on_command(&UciMessage::CloseChannel);
    assert!(send.is_empty());
    assert_eq!(s.state, UciState::AwaitUciOk);
}

#[test]
fn ready_lines_are_recognized_with_surrounding_spaces() {
    assert!(is_uciok_line(" uciok "));
    assert!(!is_uciok_line("uciok now"));
    assert!(is_readyok_line("readyok"));
    assert!(!is_readyok_line("ready"));
}

#[test]
fn classification_grades_centipawn_deltas() {
    let cp = UciEval::Centipawn;
    assert_eq!(classify_move(cp(30), cp(30)), MoveClassification::Best);
    assert_eq!(classify_move(cp(10), cp(30)), MoveClassification::Excellent);
    assert_eq!(classify_move(cp(-20), cp(30)), MoveClassification::Good);
    assert_eq!(classify_move(cp(-70), cp(30)), MoveClassification::Inaccuracy);
    assert_eq!(classify_move(cp(-270), cp(30)), MoveClassification::Mistake);
    assert_eq!(classify_move(cp(-271), cp(30)), MoveClassification::Blunder);
}

#[test]
fn classification_grades_mate_changes() {
    assert_eq!(
        classify_move(UciEval::Centipawn(500), UciEval::Mate(3)),
        MoveClassification::Miss
    );
    assert_eq!(
        classify_move(UciEval::Mate(-2), UciEval::Centipawn(100)),
        MoveClassification::Blunder
    );
    assert_eq!(classify_move(UciEval::Mate(3), UciEval::Mate(3)), MoveClassification::Best);
    assert_eq!(classify_move(UciEval::Mate(4), UciEval::Mate(3)), MoveClassification::Excellent);
    assert_eq!(classify_move(UciEval::Mate(7), UciEval::Mate(3)), MoveClassification::Good);
    assert_eq!(classify_move(UciEval::Mate(-3), UciEval::Mate(3)), MoveClassification::Blunder);
}

#[test]
fn atlas_indices_are_fixed() {
    assert_eq!(MoveClassification::Best.to_atlas_index(), 2);
    assert_eq!(MoveClassification::Miss.to_atlas_index(), 9);
}

#[test]
fn parsed_best_move_feeds_back_into_the_board() {
    let mut b = chess_core::board::Board::new();
    let m = parse_bestmove("bestmove e2e4").unwrap();
    assert!(b.try_apply_move(m).is_some());
    let m: PieceMove = parse_bestmove("bestmove e7e5").unwrap();
    assert!(b.try_apply_move(m).is_some());
}

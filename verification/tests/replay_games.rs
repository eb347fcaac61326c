use hubble::board::Occupancy;
use hubble::replay::GameAnalyser;

#[test]
fn replay_records_moves_and_scores() {
    let mut a = GameAnalyser::new();
    a.begin_game();
    a.header("White", "Alice");
    a.header("Black", "Bob");
    a.header("WhiteElo", "1500");
    a.header("BlackElo", "archer");
    a.header("ECO", "C50");
    a.header("Site", "https://lichess.org/abcd1234/white");
    a.header("Result", "1-0");
    assert!(!a.end_headers());
    let req = a.apply_san("e4").expect("legal move");
    assert_eq!(req.uci, "e2e4");
    assert_eq!(req.fen, "rnbqkbnr/pppppppp/8/8/8/8/PPPPPPPP/RNBQKBNR w KQkq -");
    a.record_score(20);
    let req = a.apply_san("e5").expect("legal move");
    assert_eq!(req.uci, "e7e5");
    a.record_score(15);
    let req = a.apply_san("Nf3").expect("legal move");
    assert_eq!(req.uci, "g1f3");
    a.record_score(-400);
    let g = a.end_game().expect("valid game");
    assert_eq!(g.moves, vec!["e2e4", "e7e5", "g1f3"]);
    assert_eq!(g.scores, vec![20, 15, -400]);
    assert_eq!(g.white, "Alice");
    assert_eq!(g.black, "Bob");
    assert_eq!(g.white_rating, Some(1500));
    assert_eq!(g.black_rating, None);
    assert_eq!(g.opening_id.as_deref(), Some("C50"));
    assert_eq!(g.id, "abcd1234");
    assert_eq!(g.winner.as_deref(), Some("Alice"));
    // three moves into the game nothing has left the back ranks but the knight
    assert_eq!(g.middle_game, None);
    assert_eq!(g.end_game, None);
    // the swing at index 2 is a blunder, and with no boundaries it is an
    // opening-phase blunder
    assert_eq!(g.blunders.opening, vec![2]);
    assert!(g.blunders.middle_game.is_empty());
    assert!(g.blunders.end_game.is_empty());
}

#[test]
fn illegal_move_discards_the_game() {
    let mut a = GameAnalyser::new();
    a.begin_game();
    assert!(a.apply_san("Ke4").is_none());
    assert!(a.end_game().is_none());
}

#[test]
fn malformed_fen_header_skips_the_game() {
    let mut a = GameAnalyser::new();
    a.begin_game();
    a.header("FEN", "not a position");
    assert!(a.end_headers());
    assert!(a.end_game().is_none());
}

#[test]
fn fen_header_replaces_the_starting_position() {
    let mut a = GameAnalyser::new();
    a.begin_game();
    a.header("FEN", "4k3/8/8/8/8/8/4P3/4K3 w - - 0 1");
    assert!(!a.end_headers());
    let req = a.apply_san("e4").expect("pawn push is legal there");
    assert_eq!(req.uci, "e2e4");
    a.record_score(50);
    let g = a.end_game().expect("valid game");
    assert_eq!(g.moves.len(), g.scores.len());
    // three non-king pieces or fewer: the bare-pawn position is already
    // past both phase conditions, marked at move index zero
    assert_eq!(g.middle_game, Some(0));
}

#[test]
fn draw_result_names_no_winner() {
    let mut a = GameAnalyser::new();
    a.begin_game();
    a.header("White", "Alice");
    a.header("Result", "1/2-1/2");
    let g = a.end_game().expect("valid game");
    assert_eq!(g.winner, None);
}

#[test]
fn replay_resets_between_games() {
    let mut a = GameAnalyser::new();
    a.begin_game();
    assert!(a.apply_san("zz").is_none());
    a.begin_game();
    let req = a.apply_san("d4").expect("legal after reset");
    assert_eq!(req.uci, "d2d4");
    a.record_score(10);
    let g = a.end_game().expect("valid game");
    assert_eq!(g.moves, vec!["d2d4"]);
}

#[test]
fn variations_are_skipped() {
    let a = GameAnalyser::new();
    assert!(a.begin_variation());
}

#[test]
fn headers_after_bad_fen_are_ignored() {
    let mut a = GameAnalyser::new();
    a.begin_game();
    a.header("FEN", "garbage");
    a.header("White", "Alice");
    assert!(a.end_headers());
    assert!(a.end_game().is_none());
    a.begin_game();
    a.header("White", "Alice");
    let g = a.end_game().expect("fresh game is valid");
    assert_eq!(g.white, "Alice");
}

#[test]
fn phase_marks_follow_the_occupancy() {
    let mut a = GameAnalyser::new();
    a.is_middle_game(&Occupancy { minor_major: 14, white_back: 8, black_back: 8 });
    assert_eq!(a.game.middle_game, None);
    a.is_middle_game(&Occupancy { minor_major: 10, white_back: 8, black_back: 8 });
    assert_eq!(a.game.middle_game, Some(0));
    a.is_end_game(&Occupancy { minor_major: 7, white_back: 2, black_back: 2 });
    assert_eq!(a.game.end_game, None);
    a.is_end_game(&Occupancy { minor_major: 6, white_back: 2, black_back: 2 });
    assert_eq!(a.game.end_game, Some(0));
}

#[test]
fn missing_score_discards_the_game() {
    let mut a = GameAnalyser::new();
    a.begin_game();
    assert!(a.apply_san("e4").is_some());
    a.fail_eval();
    assert!(a.is_ready());
    assert!(!a.is_ok());
    assert!(a.end_game().is_none());
}

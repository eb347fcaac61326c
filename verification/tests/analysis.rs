use hubble::blunder::{blunder_indices, find_blunder, group_blunders_by_phase, is_blunder, Blunders};
use hubble::game::Game;
use hubble::board::{occupancy_from_bits, Occupancy};
use hubble::phase::{reaches_endgame, reaches_middlegame};
use hubble::score::{normalize_score, RawScore};

#[test]
fn blunder_flagged_on_collapse() {
    // previous 15, score -400: ratio ~26.7 and swing 415 cross both thresholds
    assert!(is_blunder(15, -400));
}

#[test]
fn blunder_needs_prior_score() {
    assert!(!is_blunder(0, -400));
}

#[test]
fn blunder_needs_large_score() {
    assert!(!is_blunder(400, -90));
}

#[test]
fn blunder_indices_example() {
    let scores = vec![20, 15, -400];
    let flagged = blunder_indices(&scores);
    assert_eq!(flagged, vec![2]);
}

#[test]
fn blunder_indices_first_move_never_flagged() {
    let scores = vec![-400];
    let flagged = blunder_indices(&scores);
    assert!(flagged.is_empty());
}

#[test]
fn grouping_by_phase_buckets() {
    let flagged = vec![1usize, 5, 9];
    let grouped = group_blunders_by_phase(&flagged, Some(4), Some(8));
    assert_eq!(grouped.opening, vec![1]);
    assert_eq!(grouped.middle_game, vec![5]);
    assert_eq!(grouped.end_game, vec![9]);
}

#[test]
fn grouping_without_boundaries_stays_in_opening() {
    let flagged = vec![1usize, 5, 9];
    let grouped = group_blunders_by_phase(&flagged, None, None);
    assert_eq!(grouped.opening, vec![1, 5, 9]);
    assert!(grouped.middle_game.is_empty());
    assert!(grouped.end_game.is_empty());
}

#[test]
fn grouping_without_endgame_boundary() {
    let flagged = vec![1usize, 5, 9];
    let grouped = group_blunders_by_phase(&flagged, Some(2), None);
    assert_eq!(grouped.opening, vec![1]);
    assert_eq!(grouped.middle_game, vec![5, 9]);
    assert!(grouped.end_game.is_empty());
}

#[test]
fn find_blunder_reports_drops() {
    let mut game = Game::empty();
    game.moves = vec!["e2e4".to_string(), "e7e5".to_string(), "g1f3".to_string()];
    game.scores = vec![20, 15, -400];
    let drops = find_blunder(&game, 300);
    assert_eq!(drops.len(), 1);
    assert_eq!(drops[0].0, 2);
    assert_eq!(drops[0].1, "g1f3");
}

#[test]
fn find_blunder_threshold_two_hundred() {
    let mut game = Game::empty();
    game.moves = vec!["e2e4".to_string(), "e7e5".to_string()];
    game.scores = vec![20, -250];
    let drops = find_blunder(&game, 200);
    assert_eq!(drops.len(), 1);
    assert_eq!(drops[0].0, 1);
}

#[test]
fn mate_normalization_values() {
    assert_eq!(normalize_score(RawScore::Centipawns(35)), 35);
    assert_eq!(normalize_score(RawScore::MateIn(1)), 99999);
    assert_eq!(normalize_score(RawScore::MateIn(3)), 99997);
    assert_eq!(normalize_score(RawScore::MateIn(-1)), -99999);
    assert_eq!(normalize_score(RawScore::MateIn(-3)), -99997);
}

#[test]
fn mate_outranks_centipawns() {
    let mate = normalize_score(RawScore::MateIn(1));
    let cp = normalize_score(RawScore::Centipawns(9000));
    assert!(mate > cp);
    assert!(normalize_score(RawScore::MateIn(-1)) < -9000);
}

#[test]
fn start_position_is_not_middlegame() {
    // the starting position: 14 minor and major pieces, full back ranks
    let occ = Occupancy { minor_major: 14, white_back: 8, black_back: 8 };
    assert!(!reaches_middlegame(&occ));
    assert!(!reaches_endgame(&occ));
}

#[test]
fn thinned_board_reaches_middlegame() {
    let occ = Occupancy { minor_major: 10, white_back: 8, black_back: 8 };
    assert!(reaches_middlegame(&occ));
    let occ2 = Occupancy { minor_major: 14, white_back: 3, black_back: 8 };
    assert!(reaches_middlegame(&occ2));
}

#[test]
fn endgame_needs_six_pieces() {
    assert!(reaches_endgame(&Occupancy { minor_major: 6, white_back: 2, black_back: 2 }));
    assert!(!reaches_endgame(&Occupancy { minor_major: 7, white_back: 2, black_back: 2 }));
}

#[test]
fn occupancy_counts_from_bitboards() {
    // the starting position: ranks 1, 2, 7 and 8 occupied, kings on e1/e8,
    // pawns on ranks 2 and 7
    let occ: u64 = 0xFFFF_0000_0000_FFFF;
    let kings: u64 = 0x1000_0000_0000_0010;
    let pawns: u64 = 0x00FF_0000_0000_FF00;
    let o = occupancy_from_bits(occ, kings, pawns);
    assert_eq!(o.minor_major, 14);
    assert_eq!(o.white_back, 8);
    assert_eq!(o.black_back, 8);
    // an empty board counts nothing
    let none = occupancy_from_bits(0, 0, 0);
    assert_eq!((none.minor_major, none.white_back, none.black_back), (0, 0, 0));
}

#[test]
fn empty_blunders() {
    let b = Blunders::empty();
    assert!(b.opening.is_empty() && b.middle_game.is_empty() && b.end_game.is_empty());
}

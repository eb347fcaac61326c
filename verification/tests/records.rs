use hubble::game::Game;
use hubble::opening::OpeningRequest;
use hubble::player::Player;
use hubble::opening_counter::OpeningResult;

#[test]
fn empty_player_has_no_rating() {
    let p = Player::empty();
    assert_eq!(p.name, "");
    assert_eq!(p.rating, 0);
}

#[test]
fn empty_game_record() {
    let g = Game::empty();
    assert_eq!(g.moves.len(), 0);
    assert_eq!(g.scores.len(), 0);
    assert!(g.middle_game.is_none() && g.end_game.is_none());
    assert!(g.winner.is_none() && g.opening_id.is_none());
}

#[test]
fn fresh_tally_is_zero() {
    let t = OpeningResult::new();
    assert_eq!((t.won, t.tie, t.lost), (0, 0, 0));
}

#[test]
fn opening_request_carries_its_parts() {
    let req = OpeningRequest {
        moves: vec!["e2e4".to_string(), "e7e5".to_string()],
        eco: "C20".to_string(),
    };
    assert_eq!(req.moves.len(), 2);
    assert_eq!(req.eco, "C20");
}

//! The accumulated record of one replayed game.

use vstd::prelude::*;
use crate::blunder::Blunders;

verus! {

/// The artifact of one successful replay: header metadata, the ordered move
/// list in coordinate notation, the parallel ordered score list, the two
/// phase-boundary indices (unset when never reached), and the blunder
/// indices bucketed by phase.
#[derive(Clone, Debug)]
pub struct Game {
    pub id: String,
    pub opening_id: Option<String>,
    pub moves: Vec<String>,
    pub scores: Vec<i32>,
    pub white: String,
    pub black: String,
    pub white_rating: Option<i32>,
    pub black_rating: Option<i32>,
    pub winner: Option<String>,
    pub middle_game: Option<i32>,
    pub end_game: Option<i32>,
    pub blunders: Blunders,
}

impl Game {
    /// A record with no headers, no moves and no scores, and both phase
    /// boundaries unset.
    pub fn empty() -> (g: Game)
        ensures
            g.id@ == Seq::<char>::empty(),
            g.opening_id is None,
            g.moves@.len() == 0,
            g.scores@.len() == 0,
            g.white@ == Seq::<char>::empty(),
            g.black@ == Seq::<char>::empty(),
            g.white_rating is None,
            g.black_rating is None,
            g.winner is None,
            g.middle_game is None,
            g.end_game is None,
            g.blunders.opening@.len() == 0,
            g.blunders.middle_game@.len() == 0,
            g.blunders.end_game@.len() == 0,
    {
        Game {
            id: String::new(),
            opening_id: None,
            moves: Vec::new(),
            scores: Vec::new(),
            white: String::new(),
            black: String::new(),
            white_rating: None,
            black_rating: None,
            winner: None,
            middle_game: None,
            end_game: None,
            blunders: Blunders::empty(),
        }
    }
}

} // verus!

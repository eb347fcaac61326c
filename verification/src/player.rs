//! A player as the analysis records one: a name and a rating.

use vstd::prelude::*;

verus! {

/// One player of a recorded game.
#[derive(Debug, Clone)]
pub struct Player {
    pub name: String,
    pub rating: u32,
}

impl Player {
    /// A player with no name and no rating yet.
    pub fn empty() -> (p: Player)
        ensures
            p.name@ == Seq::<char>::empty(),
            p.rating == 0,
    {
        Player { name: String::new(), rating: 0 }
    }
}

} // verus!

//! Phase classification: when a game leaves the opening and when it reaches
//! the endgame.
//!
//! Both conditions are cheap, deterministic proxies read off the board's
//! occupancy summary; the thresholds are policy constants. The boundaries
//! themselves are write-once move indices recorded by the replay machine:
//! middlegame detection runs only while its boundary is unset, and endgame
//! detection only after the middlegame boundary is set, so the endgame index
//! can never precede the middlegame index.

use vstd::prelude::*;
use crate::board::Occupancy;

verus! {

/// The game is in the middlegame once this many or fewer non-king,
/// non-pawn pieces remain.
pub const MIDDLEGAME_PIECE_LIMIT: u32 = 10;

/// The game is in the endgame once this many or fewer non-king, non-pawn
/// pieces remain.
pub const ENDGAME_PIECE_LIMIT: u32 = 6;

/// The middlegame has also begun once either side keeps fewer than this
/// many pieces on its own back rank.
pub const BACK_RANK_MINIMUM: u32 = 4;

/// The middlegame condition: few enough minor and major pieces, or either
/// back rank thinned out.
pub open spec fn middlegame_condition(minor_major: int, white_back: int, black_back: int) -> bool {
    minor_major <= MIDDLEGAME_PIECE_LIMIT || white_back < BACK_RANK_MINIMUM || black_back
        < BACK_RANK_MINIMUM
}

/// The endgame condition: material reduced to a handful of minor and major
/// pieces.
pub open spec fn endgame_condition(minor_major: int) -> bool {
    minor_major <= ENDGAME_PIECE_LIMIT
}

/// Decides the middlegame condition for one occupancy summary.
pub fn reaches_middlegame(o: &Occupancy) -> (r: bool)
    ensures
        r == middlegame_condition(o.minor_major as int, o.white_back as int, o.black_back as int),
{
    o.minor_major <= MIDDLEGAME_PIECE_LIMIT || o.white_back < BACK_RANK_MINIMUM || o.black_back
        < BACK_RANK_MINIMUM
}

/// Decides the endgame condition for one occupancy summary.
pub fn reaches_endgame(o: &Occupancy) -> (r: bool)
    ensures
        r == endgame_condition(o.minor_major as int),
{
    o.minor_major <= ENDGAME_PIECE_LIMIT
}

} // verus!

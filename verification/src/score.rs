//! Evaluation scores in centipawn units, with forced-mate normalization.
//!
//! The engine reports either a plain centipawn value or a "mate in n"
//! distance. Mate distances are folded onto the centipawn scale around a
//! large sentinel magnitude so that every score is totally ordered: a mate
//! keeps its sign (positive when the side to move delivers it), and a
//! shorter mate lies further from zero than a longer one.

use vstd::prelude::*;

verus! {

/// Sentinel magnitude around which mate distances are folded.
pub const MATE_SENTINEL: i32 = 100000;

/// A score token as the engine reports it: centipawns, or mate in a signed
/// number of moves (negative when the side to move is being mated).
#[derive(Clone, Copy, Debug, PartialEq, Eq, Structural)]
pub enum RawScore {
    Centipawns(i32),
    MateIn(i32),
}

/// The normalized value of a mate distance: `n` moves from mate map to
/// `100000 - n` for the mating side and `-100000 - n` for the mated side,
/// so shorter mates are more extreme in either direction.
pub open spec fn mate_value(n: int) -> int {
    if n >= 0 {
        MATE_SENTINEL - n
    } else {
        -MATE_SENTINEL - n
    }
}

/// The normalized value of any raw score: centipawns pass through, mate
/// distances are folded with `mate_value`.
pub open spec fn normal_value(s: RawScore) -> int {
    match s {
        RawScore::Centipawns(v) => v as int,
        RawScore::MateIn(n) => mate_value(n as int),
    }
}

/// Normalizes a raw engine score to a single ordered integer scale.
///
/// The mate distance is bounded by the sentinel so the folded value keeps
/// the sign of the side delivering mate.
pub fn normalize_score(s: RawScore) -> (r: i32)
    requires
        (s matches RawScore::MateIn(n) ==> -MATE_SENTINEL < n < MATE_SENTINEL),
    ensures
        r as int == normal_value(s),
{
    match s {
        RawScore::Centipawns(v) => v,
        RawScore::MateIn(n) => {
            if n >= 0 {
                MATE_SENTINEL - n
            } else {
                -MATE_SENTINEL - n
            }
        },
    }
}

/// A mate keeps the sign of the side that delivers it.
pub proof fn lemma_mate_sign(n: int)
    requires
        -100000 < n < 100000,
    ensures
        n >= 0 ==> mate_value(n) > 0,
        n < 0 ==> mate_value(n) < 0,
{
}

/// Mate normalization preserves order: among mates for the same side, the
/// shorter mate is strictly more extreme than the longer one.
pub proof fn lemma_shorter_mate_more_extreme(n1: int, n2: int)
    requires
        0 < n1 < n2 < 100000 || -100000 < n2 < n1 < 0,
    ensures
        0 < n1 ==> mate_value(n1) > mate_value(n2) > 0,
        n1 < 0 ==> mate_value(n1) < mate_value(n2) < 0,
{
}

/// A mate in one for the side to move ranks strictly more extreme than any
/// centipawn score of magnitude below the folded mate-in-one value.
pub proof fn lemma_mate_in_one_outranks_centipawns(cp: int)
    requires
        -99999 < cp < 99999,
    ensures
        mate_value(1) > cp,
        mate_value(-1) < cp,
        mate_value(1) == 99999,
        mate_value(-1) == -99999,
{
}

} // verus!

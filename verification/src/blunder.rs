//! Blunder detection and phase bucketing.
//!
//! A move is flagged when its evaluation swings far enough from the previous
//! move's evaluation. The thresholds are policy constants: the swing must
//! leave the score large in magnitude, and either grow it sharply (ratio
//! above 23/10 with an absolute swing above 150) or collapse it (ratio below
//! 1/2 with an absolute swing above 80). A previous score of zero means "no
//! prior evaluation" and never flags.

use vstd::prelude::*;
use crate::game::Game;

verus! {

broadcast use vstd::seq_lib::lemma_seq_contains_after_push;

/// Flagged move indices grouped by game phase.
#[derive(Clone, Debug)]
pub struct Blunders {
    pub opening: Vec<i32>,
    pub middle_game: Vec<i32>,
    pub end_game: Vec<i32>,
}

impl Blunders {
    /// Three empty buckets.
    pub fn empty() -> (b: Blunders)
        ensures
            b.opening@.len() == 0,
            b.middle_game@.len() == 0,
            b.end_game@.len() == 0,
    {
        Blunders { opening: Vec::new(), middle_game: Vec::new(), end_game: Vec::new() }
    }
}

/// The absolute value of an integer.
pub open spec fn abs(v: int) -> int {
    if v < 0 {
        -v
    } else {
        v
    }
}

/// Whether a move with evaluation `score`, following one with evaluation
/// `prev`, is a blunder: the score is large, and it either grew by more than
/// the ratio 23/10 with a swing above 150, or shrank below half with a swing
/// above 80. A `prev` of zero never flags.
pub open spec fn is_blunder_swing(prev: int, score: int) -> bool {
    prev != 0 && abs(score) > 100 && ((10 * abs(score) > 23 * abs(prev) && abs(prev - score) > 150)
        || (2 * abs(score) < abs(prev) && abs(prev - score) > 80))
}

/// Decides the blunder condition for one pair of consecutive evaluations.
pub fn is_blunder(prev: i32, score: i32) -> (r: bool)
    ensures
        r == is_blunder_swing(prev as int, score as int),
{
    if prev == 0 {
        return false;
    }
    let p = prev as i64;
    let s = score as i64;
    let ap: i64 = if p < 0 { -p } else { p };
    let as_: i64 = if s < 0 { -s } else { s };
    let d: i64 = p - s;
    let ad: i64 = if d < 0 { -d } else { d };
    as_ > 100 && ((10 * as_ > 23 * ap && ad > 150) || (2 * as_ < ap && ad > 80))
}

/// The flagged indices of a score sequence, in increasing order.
pub fn blunder_indices(scores: &Vec<i32>) -> (r: Vec<usize>)
    ensures
        forall|j: int|
            0 <= j < r@.len() ==> 0 < #[trigger] r@[j] < scores@.len() && is_blunder_swing(
                scores@[r@[j] - 1] as int,
                scores@[r@[j] as int] as int,
            ),
        forall|j: int, k: int| 0 <= j < k < r@.len() ==> r@[j] < r@[k],
        forall|i: int|
            0 < i < scores@.len() && is_blunder_swing(
                scores@[i - 1] as int,
                #[trigger] scores@[i] as int,
            ) ==> r@.contains(i as usize),
{
    let mut r: Vec<usize> = Vec::new();
    let n = scores.len();
    let mut i: usize = 1;
    while i < n
        invariant
            1 <= i <= n || (n == 0 && i == 1),
            n == scores@.len(),
            forall|j: int|
                0 <= j < r@.len() ==> 0 < #[trigger] r@[j] < i && is_blunder_swing(
                    scores@[r@[j] - 1] as int,
                    scores@[r@[j] as int] as int,
                ),
            forall|j: int, k: int| 0 <= j < k < r@.len() ==> r@[j] < r@[k],
            forall|m: int|
                0 < m < i && is_blunder_swing(
                    scores@[m - 1] as int,
                    #[trigger] scores@[m] as int,
                ) ==> r@.contains(m as usize),
        decreases n - i,
    {
        if is_blunder(scores[i - 1], scores[i]) {
            r.push(i);
        }
        i += 1;
    }
    r
}

/// The phase a move index falls in, given the two boundaries. An unset
/// boundary is unreachable, so later moves stay in the last open phase.
pub open spec fn phase_of(idx: int, mg: Option<i32>, eg: Option<i32>) -> int {
    if mg is None || idx < mg->0 {
        0
    } else if eg is None || idx < eg->0 {
        1
    } else {
        2
    }
}

/// Groups flagged move indices into opening, middlegame and endgame buckets
/// by the two phase boundaries.
pub fn group_blunders_by_phase(
    blunders: &Vec<usize>,
    middle_game: Option<i32>,
    end_game: Option<i32>,
) -> (r: Blunders)
    requires
        forall|j: int| 0 <= j < blunders@.len() ==> #[trigger] blunders@[j] <= i32::MAX,
    ensures
        r.opening@.map_values(|v: i32| v as int) == blunders@.map_values(
            |u: usize| u as int,
        ).filter(|x: int| phase_of(x, middle_game, end_game) == 0),
        r.middle_game@.map_values(|v: i32| v as int) == blunders@.map_values(
            |u: usize| u as int,
        ).filter(|x: int| phase_of(x, middle_game, end_game) == 1),
        r.end_game@.map_values(|v: i32| v as int) == blunders@.map_values(
            |u: usize| u as int,
        ).filter(|x: int| phase_of(x, middle_game, end_game) == 2),
{
    let ghost all = blunders@.map_values(|u: usize| u as int);
    let mut grouped = Blunders::empty();
    let mut i: usize = 0;
    proof {
        assert(all.take(0) =~= Seq::<int>::empty());
        assert(grouped.opening@.map_values(|v: i32| v as int) =~= Seq::<int>::empty());
        assert(grouped.middle_game@.map_values(|v: i32| v as int) =~= Seq::<int>::empty());
        assert(grouped.end_game@.map_values(|v: i32| v as int) =~= Seq::<int>::empty());
    }
    while i < blunders.len()
        invariant
            0 <= i <= blunders@.len(),
            all == blunders@.map_values(|u: usize| u as int),
            forall|j: int| 0 <= j < blunders@.len() ==> #[trigger] blunders@[j] <= i32::MAX,
            grouped.opening@.map_values(|v: i32| v as int) =~= all.take(i as int).filter(
                |x: int| phase_of(x, middle_game, end_game) == 0,
            ),
            grouped.middle_game@.map_values(|v: i32| v as int) =~= all.take(i as int).filter(
                |x: int| phase_of(x, middle_game, end_game) == 1,
            ),
            grouped.end_game@.map_values(|v: i32| v as int) =~= all.take(i as int).filter(
                |x: int| phase_of(x, middle_game, end_game) == 2,
            ),
        decreases blunders@.len() - i,
    {
        let idx = blunders[i] as i32;
        proof {
            assert(all.take(i + 1).drop_last() =~= all.take(i as int));
            assert(all.take(i + 1).last() == all[i as int]);
            reveal_with_fuel(Seq::filter, 2);
        }
        let in_opening = match middle_game {
            Some(m) => idx < m,
            None => true,
        };
        if in_opening {
            grouped.opening.push(idx);
            proof {
                assert(grouped.opening@.map_values(|v: i32| v as int) =~= all.take(i + 1).filter(
                    |x: int| phase_of(x, middle_game, end_game) == 0,
                ));
            }
        } else {
            let in_middle = match end_game {
                Some(e) => idx < e,
                None => true,
            };
            if in_middle {
                grouped.middle_game.push(idx);
                proof {
                    assert(grouped.middle_game@.map_values(|v: i32| v as int) =~= all.take(
                        i + 1,
                    ).filter(|x: int| phase_of(x, middle_game, end_game) == 1));
                }
            } else {
                grouped.end_game.push(idx);
                proof {
                    assert(grouped.end_game@.map_values(|v: i32| v as int) =~= all.take(
                        i + 1,
                    ).filter(|x: int| phase_of(x, middle_game, end_game) == 2));
                }
            }
        }
        i += 1;
    }
    proof {
        assert(all.take(all.len() as int) =~= all);
    }
    grouped
}

/// Every move index falls in exactly one of the three phases, whatever the
/// boundaries: bucket assignment is exhaustive and disjoint.
pub proof fn lemma_phase_partition(idx: int, mg: Option<i32>, eg: Option<i32>)
    ensures
        phase_of(idx, mg, eg) == 0 || phase_of(idx, mg, eg) == 1 || phase_of(idx, mg, eg) == 2,
{
}

/// The three buckets together hold exactly as many indices as were flagged:
/// with disjointness of the phases, every flagged index lands in exactly one
/// bucket.
pub proof fn lemma_buckets_cover(idxs: Seq<int>, mg: Option<i32>, eg: Option<i32>)
    ensures
        idxs.filter(|x: int| phase_of(x, mg, eg) == 0).len() + idxs.filter(
            |x: int| phase_of(x, mg, eg) == 1,
        ).len() + idxs.filter(|x: int| phase_of(x, mg, eg) == 2).len() == idxs.len(),
    decreases idxs.len(),
{
    reveal_with_fuel(Seq::filter, 2);
    if idxs.len() > 0 {
        lemma_buckets_cover(idxs.drop_last(), mg, eg);
    }
}

/// Every flagged index lands in its own phase's bucket and in no other:
/// together with the phases being exhaustive, each flagged index appears
/// in exactly one of the three buckets.
pub proof fn lemma_flagged_in_one_bucket(idxs: Seq<int>, mg: Option<i32>, eg: Option<i32>, t: int)
    requires
        0 <= t < idxs.len(),
    ensures
        idxs.filter(|x: int| phase_of(x, mg, eg) == phase_of(idxs[t], mg, eg)).contains(idxs[t]),
        phase_of(idxs[t], mg, eg) != 0 ==> !idxs.filter(
            |x: int| phase_of(x, mg, eg) == 0,
        ).contains(idxs[t]),
        phase_of(idxs[t], mg, eg) != 1 ==> !idxs.filter(
            |x: int| phase_of(x, mg, eg) == 1,
        ).contains(idxs[t]),
        phase_of(idxs[t], mg, eg) != 2 ==> !idxs.filter(
            |x: int| phase_of(x, mg, eg) == 2,
        ).contains(idxs[t]),
{
    idxs.lemma_filter_contains(|x: int| phase_of(x, mg, eg) == phase_of(idxs[t], mg, eg), t);
    lemma_not_in_other_bucket(idxs, mg, eg, t, 0);
    lemma_not_in_other_bucket(idxs, mg, eg, t, 1);
    lemma_not_in_other_bucket(idxs, mg, eg, t, 2);
}

/// An index whose phase is not `p` is absent from phase `p`'s bucket.
proof fn lemma_not_in_other_bucket(
    idxs: Seq<int>,
    mg: Option<i32>,
    eg: Option<i32>,
    t: int,
    p: int,
)
    requires
        0 <= t < idxs.len(),
    ensures
        phase_of(idxs[t], mg, eg) != p ==> !idxs.filter(
            |x: int| phase_of(x, mg, eg) == p,
        ).contains(idxs[t]),
{
    if phase_of(idxs[t], mg, eg) != p {
        let f = idxs.filter(|x: int| phase_of(x, mg, eg) == p);
        if f.contains(idxs[t]) {
            let j = choose|j: int| 0 <= j < f.len() && f[j] == idxs[t];
            idxs.lemma_filter_pred(|x: int| phase_of(x, mg, eg) == p, j);
        }
    }
}

/// The simple report form: each move whose evaluation fell by more than
/// `threshold` relative to the move before it, paired with its move text.
/// The first move is compared against a previous evaluation of zero.
pub open spec fn is_simple_drop(scores: Seq<i32>, i: int, threshold: int) -> bool {
    (if i == 0 {
        0int
    } else {
        scores[i - 1] as int
    }) - scores[i] as int > threshold
}

/// Finds the moves whose evaluation dropped by more than `threshold` against
/// the previous move's evaluation, pairing each flagged index with the move
/// played at it.
pub fn find_blunder(game: &Game, threshold: i32) -> (r: Vec<(usize, String)>)
    ensures
        forall|j: int|
            0 <= j < r@.len() ==> {
                let n = if game.moves@.len() <= game.scores@.len() {
                    game.moves@.len() as int
                } else {
                    game.scores@.len() as int
                };
                &&& 0 <= #[trigger] r@[j].0 < n
                &&& is_simple_drop(game.scores@, r@[j].0 as int, threshold as int)
                &&& r@[j].1@ == game.moves@[r@[j].0 as int]@
            },
        forall|j: int, k: int| 0 <= j < k < r@.len() ==> r@[j].0 < r@[k].0,
        forall|i: int|
            0 <= i < game.moves@.len() && i < game.scores@.len() && is_simple_drop(
                game.scores@,
                i,
                threshold as int,
            ) ==> exists|j: int| 0 <= j < r@.len() && #[trigger] r@[j].0 == i,
{
    let mut r: Vec<(usize, String)> = Vec::new();
    let n = if game.moves.len() <= game.scores.len() {
        game.moves.len()
    } else {
        game.scores.len()
    };
    let mut prev: i32 = 0;
    let mut i: usize = 0;
    while i < n
        invariant
            0 <= i <= n,
            n == if game.moves@.len() <= game.scores@.len() {
                game.moves@.len() as int
            } else {
                game.scores@.len() as int
            },
            prev as int == if i == 0 {
                0int
            } else {
                game.scores@[i - 1] as int
            },
            forall|j: int| 0 <= j < r@.len() ==> 0 <= #[trigger] r@[j].0 < i,
            forall|j: int|
                0 <= j < r@.len() ==> is_simple_drop(game.scores@, #[trigger] r@[j].0 as int,
                threshold as int) && r@[j].1@ == game.moves@[r@[j].0 as int]@,
            forall|j: int, k: int| 0 <= j < k < r@.len() ==> r@[j].0 < r@[k].0,
            forall|m: int|
                0 <= m < i && is_simple_drop(game.scores@, m, threshold as int) ==> exists|j: int|
                    0 <= j < r@.len() && #[trigger] r@[j].0 == m,
        decreases n - i,
    {
        let score = game.scores[i];
        if (prev as i64) - (score as i64) > threshold as i64 {
            let ghost r_old = r@;
            let mv = String::from_str(game.moves[i].as_str());
            r.push((i, mv));
            proof {
                assert(r@[r@.len() - 1].0 == i);
                assert forall|m: int|
                    0 <= m < i && is_simple_drop(game.scores@, m, threshold as int) implies exists|
                    j: int,
                |
                    0 <= j < r@.len() && #[trigger] r@[j].0 == m by {
                    let j0 = choose|j: int| 0 <= j < r_old.len() && #[trigger] r_old[j].0 == m;
                    assert(r@[j0].0 == m);
                }
            }
        }
        prev = score;
        i += 1;
    }
    r
}

} // verus!

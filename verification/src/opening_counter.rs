//! Tallying how a player fares in each named opening.
//!
//! The counter consumes a stream of the player's games. For each game it
//! remembers the declared catalogue code, the result and which side the
//! player took; at the game's end it matches the game's moves against the
//! catalogue entries sharing that code and credits the best-matching
//! opening with a win, a tie or a loss.

use vstd::prelude::*;
use crate::opening::{is_best_choice, match_length_sans, sans_prefix_len, Opening};
use crate::text;

verus! {

broadcast use vstd::string::group_string_axioms;

/// One opening's tally: games won, tied and lost by the player.
#[derive(Debug, Copy, Clone, PartialEq, Eq, Structural)]
pub struct OpeningResult {
    pub won: u32,
    pub tie: u32,
    pub lost: u32,
}

impl OpeningResult {
    /// A tally with nothing counted yet.
    pub fn new() -> (r: OpeningResult)
        ensures
            r.won == 0,
            r.tie == 0,
            r.lost == 0,
    {
        OpeningResult { won: 0, tie: 0, lost: 0 }
    }

    /// The tally as display text: the three counts separated by spaces.
    pub fn describe(&self) -> (r: String)
        ensures
            r@ == crate::text::dec_rep(self.won as int) + " "@ + crate::text::dec_rep(
                self.tie as int,
            ) + " "@ + crate::text::dec_rep(self.lost as int),
    {
        proof {
            reveal_strlit(" ");
        }
        let mut r = crate::text::u32_to_string(self.won);
        r.append(" ");
        let tie = crate::text::u32_to_string(self.tie);
        r.append(tie.as_str());
        r.append(" ");
        let lost = crate::text::u32_to_string(self.lost);
        r.append(lost.as_str());
        r
    }
}

/// How one game ended for the player: won, tied or lost, decided by the
/// recorded result string and the side the player took.
pub open spec fn outcome_of(result: Seq<char>, is_white: bool) -> int {
    if result == "1/2-1/2"@ {
        1
    } else if (result == "1-0"@) == is_white {
        0
    } else {
        2
    }
}

/// A tally with the given outcome counted once more. The counts saturate
/// at the largest representable value.
pub open spec fn bump(o: OpeningResult, outcome: int) -> OpeningResult {
    if outcome == 0 {
        OpeningResult { won: if o.won == u32::MAX {
            o.won
        } else {
            (o.won + 1) as u32
        }, ..o }
    } else if outcome == 1 {
        OpeningResult { tie: if o.tie == u32::MAX {
            o.tie
        } else {
            (o.tie + 1) as u32
        }, ..o }
    } else {
        OpeningResult { lost: if o.lost == u32::MAX {
            o.lost
        } else {
            (o.lost + 1) as u32
        }, ..o }
    }
}

/// The first position of `name` among the tally keys from `i` on, or -1.
pub open spec fn key_index(s: Seq<(String, OpeningResult)>, name: Seq<char>, i: int) -> int
    decreases s.len() - i,
{
    if i < 0 || i >= s.len() {
        -1
    } else if s[i].0@ == name {
        i
    } else {
        key_index(s, name, i + 1)
    }
}

/// Whether `news` is `olds` with one more `outcome` counted under `name`:
/// the named tally bumped in place when the key exists, and a fresh tally
/// with that single outcome appended otherwise.
pub open spec fn tally_updated(
    olds: Seq<(String, OpeningResult)>,
    news: Seq<(String, OpeningResult)>,
    name: Seq<char>,
    outcome: int,
) -> bool {
    let k = key_index(olds, name, 0);
    if k >= 0 {
        news == olds.update(k, (olds[k].0, bump(olds[k].1, outcome)))
    } else {
        &&& news.len() == olds.len() + 1
        &&& news.take(olds.len() as int) == olds
        &&& news.last().0@ == name
        &&& news.last().1 == bump(OpeningResult { won: 0, tie: 0, lost: 0 }, outcome)
    }
}

/// Counts one game outcome under the named opening, bumping its tally or
/// opening a fresh one.
pub fn record_result(tallies: &mut Vec<(String, OpeningResult)>, name: &str, outcome: u32)
    ensures
        tally_updated(old(tallies)@, final(tallies)@, name@, outcome as int),
{
    let ghost olds = tallies@;
    let n = tallies.len();
    let mut i: usize = 0;
    while i < n
        invariant
            0 <= i <= n,
            n == tallies@.len(),
            olds == tallies@,
            olds == old(tallies)@,
            key_index(olds, name@, 0) == key_index(olds, name@, i as int),
        decreases n - i,
    {
        if text::str_eq(tallies[i].0.as_str(), name) {
            let entry = tallies.remove(i);
            let t = entry.1;
            let bumped = if outcome == 0 {
                OpeningResult { won: t.won.saturating_add(1), ..t }
            } else if outcome == 1 {
                OpeningResult { tie: t.tie.saturating_add(1), ..t }
            } else {
                OpeningResult { lost: t.lost.saturating_add(1), ..t }
            };
            tallies.insert(i, (entry.0, bumped));
            proof {
                assert(olds[i as int].0@ == name@);
                assert(key_index(olds, name@, i as int) == i);
                assert(tallies@ =~= olds.update(
                    i as int,
                    (olds[i as int].0, bump(olds[i as int].1, outcome as int)),
                ));
                assert(tally_updated(olds, tallies@, name@, outcome as int));
            }
            return ;
        }
        i += 1;
    }
    let t = OpeningResult::new();
    let bumped = if outcome == 0 {
        OpeningResult { won: t.won.saturating_add(1), ..t }
    } else if outcome == 1 {
        OpeningResult { tie: t.tie.saturating_add(1), ..t }
    } else {
        OpeningResult { lost: t.lost.saturating_add(1), ..t }
    };
    tallies.push((String::from_str(name), bumped));
    proof {
        assert(tallies@.take(olds.len() as int) =~= olds);
    }
}


/// The catalogue entries that share a classification code, in first-seen
/// order.
pub open spec fn eco_entries(os: Seq<Opening>, eco: Seq<char>) -> Seq<Opening> {
    os.filter(|o: Opening| o.eco@ == eco)
}

/// The per-game opening counter: the catalogue, the player's name and side
/// filter, the tallies accumulated so far, and the current game's code,
/// moves and result.
pub struct OpeningCounter {
    pub openings: Vec<(String, OpeningResult)>,
    pub ecos: Vec<Opening>,
    pub current_eco: String,
    pub current_moves: Vec<String>,
    pub is_white: bool,
    pub result: String,
    pub player: String,
    pub white_only: Option<bool>,
}

impl OpeningCounter {
    /// A counter over the given catalogue for one player, optionally
    /// restricted to one side.
    pub fn new(catalogue: Vec<Opening>, player: String, white_only: Option<bool>) -> (c:
        OpeningCounter)
        ensures
            c.openings@.len() == 0,
            c.ecos == catalogue,
            c.current_eco@ == Seq::<char>::empty(),
            c.current_moves@.len() == 0,
            c.is_white,
            c.result@ == Seq::<char>::empty(),
            c.player == player,
            c.white_only == white_only,
    {
        OpeningCounter {
            openings: Vec::new(),
            ecos: catalogue,
            current_eco: String::new(),
            current_moves: Vec::new(),
            is_white: true,
            result: String::new(),
            player,
            white_only,
        }
    }

    /// Clears the per-game state for the next game of the stream.
    pub fn begin_game(&mut self)
        ensures
            final(self).current_moves@.len() == 0,
            final(self).result@ == Seq::<char>::empty(),
            final(self).is_white,
            final(self).openings == old(self).openings,
            final(self).ecos == old(self).ecos,
            final(self).current_eco == old(self).current_eco,
            final(self).player == old(self).player,
            final(self).white_only == old(self).white_only,
    {
        self.current_moves = Vec::new();
        self.result = String::new();
        self.is_white = true;
    }

    /// Records one header field: the catalogue code, which side the player
    /// took, and the game result. Other keys are ignored.
    pub fn header(&mut self, key: &str, value: &str)
        ensures
            key@ == "ECO"@ ==> final(self).current_eco@ == value@,
            key@ != "ECO"@ ==> final(self).current_eco == old(self).current_eco,
            key@ == "White"@ ==> final(self).is_white == (value@ == old(self).player@),
            key@ != "White"@ ==> final(self).is_white == old(self).is_white,
            key@ == "Result"@ ==> final(self).result@ == value@,
            key@ != "Result"@ ==> final(self).result == old(self).result,
            final(self).openings == old(self).openings,
            final(self).ecos == old(self).ecos,
            final(self).current_moves == old(self).current_moves,
            final(self).player == old(self).player,
            final(self).white_only == old(self).white_only,
    {
        proof {
            reveal_strlit("ECO");
            reveal_strlit("White");
            reveal_strlit("Result");
            assert("ECO"@.len() == 3);
            assert("White"@.len() == 5);
            assert("Result"@.len() == 6);
        }
        if text::str_eq(key, "ECO") {
            self.current_eco = String::from_str(value);
        } else if text::str_eq(key, "White") {
            self.is_white = text::str_eq(value, self.player.as_str());
        } else if text::str_eq(key, "Result") {
            self.result = String::from_str(value);
        }
    }

    /// Whether the rest of this game should be skipped under the side
    /// filter: a game is skipped exactly when a filter is set and the side
    /// the player took does not match it.
    pub fn end_headers(&self) -> (skip: bool)
        ensures
            skip == match self.white_only {
                Some(v) => v != self.is_white,
                None => false,
            },
    {
        match self.white_only {
            Some(v) => v != self.is_white,
            None => false,
        }
    }

    /// Side variations are always skipped.
    pub fn begin_variation(&self) -> (skip: bool)
        ensures
            skip,
    {
        true
    }

    /// Records one mainline move token of the current game.
    pub fn san(&mut self, token: &str)
        ensures
            final(self).current_moves@ == old(self).current_moves@.push(
                final(self).current_moves@.last(),
            ),
            final(self).current_moves@.last()@ == token@,
            final(self).openings == old(self).openings,
            final(self).ecos == old(self).ecos,
            final(self).current_eco == old(self).current_eco,
            final(self).is_white == old(self).is_white,
            final(self).result == old(self).result,
            final(self).player == old(self).player,
            final(self).white_only == old(self).white_only,
    {
        self.current_moves.push(String::from_str(token));
    }

    /// Closes the game: among the catalogue entries sharing the game's
    /// code, the one with the greatest matched move prefix is credited
    /// with the game's outcome; a game with no moves, or no matching
    /// entry, changes no tally.
    pub fn end_game(&mut self) -> (r: bool)
        ensures
            !r,
            final(self).ecos == old(self).ecos,
            final(self).current_eco == old(self).current_eco,
            final(self).current_moves == old(self).current_moves,
            final(self).is_white == old(self).is_white,
            final(self).result == old(self).result,
            final(self).player == old(self).player,
            final(self).white_only == old(self).white_only,
            old(self).current_moves@.len() == 0 ==> final(self).openings == old(self).openings,
            old(self).current_moves@.len() > 0 ==> {
                let rel = eco_entries(old(self).ecos@, old(self).current_eco@);
                let lens = Seq::new(
                    rel.len(),
                    |t: int| sans_prefix_len(rel[t].pgn@, old(self).current_moves.deep_view()),
                );
                ||| (exists|b: int|
                    #[trigger] is_best_choice(lens, Some(b)) && tally_updated(
                        old(self).openings@,
                        final(self).openings@,
                        rel[b].name@,
                        outcome_of(old(self).result@, old(self).is_white),
                    ))
                ||| (is_best_choice(lens, None) && final(self).openings@ == old(self).openings@)
            },
    {
        if self.current_moves.len() == 0 {
            return false;
        }
        let ghost rel = eco_entries(self.ecos@, self.current_eco@);
        let ghost ms = self.current_moves.deep_view();
        let ghost lens = Seq::new(rel.len(), |t: int| sans_prefix_len(rel[t].pgn@, ms));
        let mut rel_idx: Vec<usize> = Vec::new();
        let mut lengths: Vec<usize> = Vec::new();
        let n = self.ecos.len();
        let mut i: usize = 0;
        proof {
            assert(self.ecos@.take(0).filter(
                |o: Opening| o.eco@ == self.current_eco@,
            ) =~= Seq::<Opening>::empty());
            assert(Seq::new(rel_idx@.len(), |t: int| self.ecos@[rel_idx@[t] as int])
                =~= Seq::<Opening>::empty());
        }
        while i < n
            invariant
                0 <= i <= n,
                self == old(self),
                n == self.ecos@.len(),
                rel_idx@.len() == lengths@.len(),
                forall|t: int| 0 <= t < rel_idx@.len() ==> #[trigger] rel_idx@[t] < n,
                Seq::new(rel_idx@.len(), |t: int| self.ecos@[rel_idx@[t] as int])
                    =~= self.ecos@.take(i as int).filter(
                    |o: Opening| o.eco@ == self.current_eco@,
                ),
                ms == self.current_moves.deep_view(),
                forall|t: int|
                    0 <= t < lengths@.len() ==> #[trigger] lengths@[t] as int == sans_prefix_len(
                        self.ecos@[rel_idx@[t] as int].pgn@,
                        ms,
                    ),
            decreases n - i,
        {
            proof {
                assert(self.ecos@.take(i + 1).drop_last() =~= self.ecos@.take(i as int));
                assert(self.ecos@.take(i + 1).last() == self.ecos@[i as int]);
                reveal_with_fuel(Seq::filter, 2);
            }
            if text::str_eq(self.ecos[i].eco.as_str(), self.current_eco.as_str()) {
                let len = match_length_sans(&self.ecos[i], &self.current_moves);
                rel_idx.push(i);
                lengths.push(len);
                proof {
                    assert(Seq::new(rel_idx@.len(), |t: int| self.ecos@[rel_idx@[t] as int])
                        =~= self.ecos@.take(i + 1).filter(
                        |o: Opening| o.eco@ == self.current_eco@,
                    ));
                }
            } else {
                proof {
                    assert(Seq::new(rel_idx@.len(), |t: int| self.ecos@[rel_idx@[t] as int])
                        =~= self.ecos@.take(i + 1).filter(
                        |o: Opening| o.eco@ == self.current_eco@,
                    ));
                }
            }
            i += 1;
        }
        proof {
            assert(self.ecos@.take(n as int) =~= self.ecos@);
            assert(Seq::new(rel_idx@.len(), |t: int| self.ecos@[rel_idx@[t] as int]) =~= rel);
            assert(lengths@.map_values(|u: usize| u as int) =~= lens);
        }
        let choice = crate::opening::best_index(&lengths);
        match choice {
            Some(b) => {
                let outcome: u32 = if text::str_eq(self.result.as_str(), "1/2-1/2") {
                    1
                } else if text::str_eq(self.result.as_str(), "1-0") == self.is_white {
                    0
                } else {
                    2
                };
                proof {
                    reveal_strlit("1/2-1/2");
                    reveal_strlit("1-0");
                    assert(outcome as int == outcome_of(self.result@, self.is_white));
                    assert(rel[b as int].name@ == self.ecos@[rel_idx@[b as int] as int].name@);
                }
                let idx = rel_idx[b];
                let name = String::from_str(self.ecos[idx].name.as_str());
                record_result(&mut self.openings, name.as_str(), outcome);
                proof {
                    assert(is_best_choice(lens, Some(b as int)));
                }
            },
            None => {
                proof {
                    assert(is_best_choice(lens, None));
                }
            },
        }
        false
    }
}

} // verus!

//! Game replay state machine.
//!
//! A replay consumes one game as a stream of events — headers, then move
//! tokens — and accumulates a [`Game`] record. Moves advance the owned
//! position through the position model adapter; each applied move opens a
//! single evaluation slot that the caller fills with the engine's score
//! before the next move may be applied, so the move list and the score list
//! grow in lockstep. A malformed starting-position header or an illegal
//! move marks the game failed: the rest of its events are ignored and the
//! record is discarded at the game boundary.

use vstd::prelude::*;
use shakmaty::Chess;
use crate::blunder::{group_blunders_by_phase, is_blunder, is_blunder_swing, phase_of, Blunders};
use crate::board;
use crate::board::Occupancy;
use crate::game::Game;
use crate::phase;
use crate::text;
use crate::text::{is_int_literal, int_literal_val, segs_of};

verus! {

broadcast use vstd::string::group_string_axioms;

/// The move indices flagged as blunders among the first `n` scores: index
/// `i` is flagged when the swing from score `i - 1` to score `i` crosses
/// the blunder thresholds. The first move has no predecessor and is never
/// flagged.
pub open spec fn flagged_upto(scores: Seq<i32>, n: int) -> Seq<int>
    decreases n,
{
    if n <= 1 {
        Seq::<int>::empty()
    } else {
        flagged_upto(scores, n - 1) + if is_blunder_swing(
            scores[n - 2] as int,
            scores[n - 1] as int,
        ) {
            seq![n - 1]
        } else {
            Seq::<int>::empty()
        }
    }
}

/// Flags over a prefix do not depend on scores beyond it.
proof fn lemma_flagged_prefix_stable(scores: Seq<i32>, s: i32, n: int)
    requires
        n <= scores.len(),
    ensures
        flagged_upto(scores.push(s), n) == flagged_upto(scores, n),
    decreases n,
{
    if n > 1 {
        lemma_flagged_prefix_stable(scores, s, n - 1);
        assert(scores.push(s)[n - 2] == scores[n - 2]);
        assert(scores.push(s)[n - 1] == scores[n - 1]);
    }
}

/// Every flagged index lies strictly between zero and `n`, and the flags
/// are strictly increasing.
proof fn lemma_flagged_bounds(scores: Seq<i32>, n: int)
    ensures
        forall|j: int|
            0 <= j < flagged_upto(scores, n).len() ==> 0 < #[trigger] flagged_upto(scores, n)[j]
                < n,
        forall|j: int, k: int|
            0 <= j < k < flagged_upto(scores, n).len() ==> flagged_upto(scores, n)[j]
                < flagged_upto(scores, n)[k],
    decreases n,
{
    if n > 1 {
        lemma_flagged_bounds(scores, n - 1);
        let f0 = flagged_upto(scores, n - 1);
        let f = flagged_upto(scores, n);
        assert(forall|j: int| 0 <= j < f0.len() ==> f[j] == f0[j]);
        if f.len() > f0.len() {
            assert(f[f.len() - 1] == n - 1);
        }
    }
}

/// One evaluation request opened by an applied move: the board encoding of
/// the position the move was played from, and the move in coordinate
/// notation. The engine evaluates the position reached by playing the move
/// from that encoding.
pub struct EvalRequest {
    pub fen: String,
    pub uci: String,
}

/// The replay state machine for one stream of games.
pub struct GameAnalyser {
    pub pos: Chess,
    pub success: bool,
    pub game: Game,
    pub move_counter: usize,
    pub last_score: i32,
    pub blunders: Vec<usize>,
    pub pending_eval: bool,
}

impl GameAnalyser {
    /// Whether the current game is still valid: no malformed header and no
    /// illegal move so far.
    pub closed spec fn ok(self) -> bool {
        self.success
    }

    /// Whether no evaluation request is outstanding: a new move may be
    /// applied only in this state, so at most one request is ever open.
    pub closed spec fn ready(self) -> bool {
        !self.pending_eval
    }

    /// Internal consistency of the replay: the score list trails the move
    /// list by exactly the open evaluation slot, the remembered previous
    /// score is the last recorded one, the flagged indices are exactly the
    /// blunder flags of the recorded scores, and the phase boundaries are
    /// write-once indices with the middlegame no later than the endgame.
    pub closed spec fn wf(self) -> bool {
        &&& self.move_counter == self.game.scores@.len()
        &&& self.game.moves@.len() == self.game.scores@.len() + (if self.pending_eval {
            1int
        } else {
            0int
        })
        &&& self.last_score as int == (if self.game.scores@.len() == 0 {
            0int
        } else {
            self.game.scores@.last() as int
        })
        &&& self.blunders@.map_values(|u: usize| u as int) =~= flagged_upto(
            self.game.scores@,
            self.game.scores@.len() as int,
        )
        &&& (self.game.middle_game matches Some(m) ==> 0 <= m as int
            <= self.move_counter as int)
        &&& (self.game.end_game matches Some(e) ==> {
            &&& self.game.middle_game matches Some(m) && m <= e
            &&& 0 <= e as int <= self.move_counter as int
        })
    }

    /// A fresh replay, holding the standard starting position and an empty
    /// record.
    pub fn new() -> (a: GameAnalyser)
        ensures
            a.wf(),
            a.ok(),
            a.ready(),
            a.game.moves@.len() == 0,
            a.game.scores@.len() == 0,
            a.game.middle_game is None,
            a.game.end_game is None,
            a.game.id@ == Seq::<char>::empty(),
            a.game.white@ == Seq::<char>::empty(),
            a.game.black@ == Seq::<char>::empty(),
            a.game.white_rating is None,
            a.game.black_rating is None,
            a.game.winner is None,
            a.game.opening_id is None,
            a.game.blunders.opening@.len() == 0,
            a.game.blunders.middle_game@.len() == 0,
            a.game.blunders.end_game@.len() == 0,
    {
        GameAnalyser {
            pos: board::starting_position(),
            success: true,
            game: Game::empty(),
            move_counter: 0,
            last_score: 0,
            blunders: Vec::new(),
            pending_eval: false,
        }
    }

    /// Whether no evaluation request is outstanding, for callers that need
    /// to test it.
    pub fn is_ready(&self) -> (r: bool)
        ensures
            r == self.ready(),
    {
        !self.pending_eval
    }

    /// Whether the current game is still valid, for callers that need to
    /// test it.
    pub fn is_ok(&self) -> (r: bool)
        ensures
            r == self.ok(),
    {
        self.success
    }

    /// Resets the replay for the next game of the stream: fresh starting
    /// position, empty record, success flag raised.
    pub fn begin_game(&mut self)
        ensures
            final(self).wf(),
            final(self).ok(),
            final(self).ready(),
            final(self).game.moves@.len() == 0,
            final(self).game.scores@.len() == 0,
            final(self).game.middle_game is None,
            final(self).game.end_game is None,
            final(self).game.id@ == Seq::<char>::empty(),
            final(self).game.white@ == Seq::<char>::empty(),
            final(self).game.black@ == Seq::<char>::empty(),
            final(self).game.white_rating is None,
            final(self).game.black_rating is None,
            final(self).game.winner is None,
            final(self).game.opening_id is None,
            final(self).game.blunders.opening@.len() == 0,
            final(self).game.blunders.middle_game@.len() == 0,
            final(self).game.blunders.end_game@.len() == 0,
    {
        self.pos = board::starting_position();
        self.success = true;
        self.game = Game::empty();
        self.move_counter = 0;
        self.last_score = 0;
        self.blunders = Vec::new();
        self.pending_eval = false;
    }

    /// Records one header field, ignored entirely once the game has
    /// failed. A `FEN` header replaces the starting position, and marks
    /// the game failed when it cannot be parsed or validated; every other
    /// recognized key fills its metadata field; unrecognized keys are
    /// ignored. No header touches the move list, the score list or the
    /// phase boundaries.
    pub fn header(&mut self, key: &str, value: &str)
        requires
            old(self).wf(),
        ensures
            final(self).wf(),
            final(self).ready() == old(self).ready(),
            final(self).game.moves == old(self).game.moves,
            final(self).game.scores == old(self).game.scores,
            final(self).game.middle_game == old(self).game.middle_game,
            final(self).game.end_game == old(self).game.end_game,
            final(self).ok() ==> old(self).ok(),
            !old(self).ok() ==> final(self).game == old(self).game,
            key@ != "FEN"@ ==> final(self).ok() == old(self).ok(),
            old(self).ok() && key@ == "FEN"@ ==> final(self).ok() == crate::board::fen_playable(
                value@,
            ),
            old(self).ok() && key@ == "White"@ ==> final(self).game.white@ == value@,
            !(old(self).ok() && key@ == "White"@) ==> final(self).game.white == old(self).game.white,
            old(self).ok() && key@ == "Black"@ ==> final(self).game.black@ == value@,
            !(old(self).ok() && key@ == "Black"@) ==> final(self).game.black == old(self).game.black,
            old(self).ok() && key@ == "WhiteElo"@ && is_int_literal(value@) && i32::MIN
                <= int_literal_val(value@) <= i32::MAX ==> (final(self).game.white_rating matches Some(v) && v as int == int_literal_val(value@)),
            !(old(self).ok() && key@ == "WhiteElo"@ && is_int_literal(value@) && i32::MIN
                <= int_literal_val(value@) <= i32::MAX) ==> final(self).game.white_rating == old(self).game.white_rating,
            old(self).ok() && key@ == "BlackElo"@ && is_int_literal(value@) && i32::MIN
                <= int_literal_val(value@) <= i32::MAX ==> (final(self).game.black_rating matches Some(v) && v as int == int_literal_val(value@)),
            !(old(self).ok() && key@ == "BlackElo"@ && is_int_literal(value@) && i32::MIN
                <= int_literal_val(value@) <= i32::MAX) ==> final(self).game.black_rating == old(self).game.black_rating,
            old(self).ok() && (key@ == "Site"@ || key@ == "LichessURL"@) && segs_of(
                value@,
                '/',
            ).len() > 3 ==> final(self).game.id@ == segs_of(value@, '/')[3],
            !(old(self).ok() && (key@ == "Site"@ || key@ == "LichessURL"@) && segs_of(
                value@,
                '/',
            ).len() > 3) ==> final(self).game.id == old(self).game.id,
            old(self).ok() && key@ == "ECO"@ ==> (final(self).game.opening_id matches Some(o)
                && o@ == value@),
            !(old(self).ok() && key@ == "ECO"@) ==> final(self).game.opening_id == old(self).game.opening_id,
            old(self).ok() && key@ == "Result"@ && value@ == "1-0"@ ==> (final(self).game.winner matches Some(w) && w@ == old(self).game.white@),
            old(self).ok() && key@ == "Result"@ && value@ == "0-1"@ ==> (final(self).game.winner matches Some(w) && w@ == old(self).game.black@),
            old(self).ok() && key@ == "Result"@ && value@ != "1-0"@ && value@ != "0-1"@ ==> final(self).game.winner is None,
            !(old(self).ok() && key@ == "Result"@) ==> final(self).game.winner == old(self).game.winner,
    {
        if !self.success {
            return ;
        }
        proof {
            reveal_strlit("FEN");
            reveal_strlit("White");
            reveal_strlit("Black");
            reveal_strlit("WhiteElo");
            reveal_strlit("BlackElo");
            reveal_strlit("Site");
            reveal_strlit("LichessURL");
            reveal_strlit("ECO");
            reveal_strlit("Result");
            reveal_strlit("1-0");
            reveal_strlit("0-1");
            assert("FEN"@.len() == 3 && "FEN"@[0] == 'F');
            assert("White"@.len() == 5 && "White"@[0] == 'W');
            assert("Black"@.len() == 5 && "Black"@[0] == 'B');
            assert("WhiteElo"@.len() == 8 && "WhiteElo"@[0] == 'W');
            assert("BlackElo"@.len() == 8 && "BlackElo"@[0] == 'B');
            assert("Site"@.len() == 4);
            assert("LichessURL"@.len() == 10);
            assert("ECO"@.len() == 3 && "ECO"@[0] == 'E');
            assert("Result"@.len() == 6);
            assert("1-0"@.len() == 3 && "1-0"@[0] == '1');
            assert("0-1"@.len() == 3 && "0-1"@[0] == '0');
        }
        if text::str_eq(key, "FEN") {
            match board::fen_to_position(value) {
                Some(pos) => {
                    self.pos = pos;
                },
                None => {
                    self.success = false;
                },
            }
        } else if text::str_eq(key, "White") {
            self.game.white = String::from_str(value);
        } else if text::str_eq(key, "Black") {
            self.game.black = String::from_str(value);
        } else if text::str_eq(key, "WhiteElo") {
            match text::parse_i32(value) {
                Some(rating) => {
                    self.game.white_rating = Some(rating);
                },
                None => {},
            }
        } else if text::str_eq(key, "BlackElo") {
            match text::parse_i32(value) {
                Some(rating) => {
                    self.game.black_rating = Some(rating);
                },
                None => {},
            }
        } else if text::str_eq(key, "Site") || text::str_eq(key, "LichessURL") {
            match text::nth_segment(value, '/', 3) {
                Some(id) => {
                    self.game.id = id;
                },
                None => {},
            }
        } else if text::str_eq(key, "ECO") {
            self.game.opening_id = Some(String::from_str(value));
        } else if text::str_eq(key, "Result") {
            if text::str_eq(value, "1-0") {
                self.game.winner = Some(self.game.white.clone());
            } else if text::str_eq(value, "0-1") {
                self.game.winner = Some(self.game.black.clone());
            } else {
                self.game.winner = None;
            }
        }
    }

    /// Whether the rest of the game should be skipped: true once a header
    /// failed, so the stream can resynchronize at the next game boundary.
    pub fn end_headers(&self) -> (skip: bool)
        ensures
            skip == !self.ok(),
    {
        !self.success
    }

    /// Side variations are always skipped: only the mainline is replayed.
    pub fn begin_variation(&self) -> (skip: bool)
        ensures
            skip,
    {
        true
    }

    /// Applies one move token to the current position. On success the move
    /// is appended to the record in coordinate notation and an evaluation
    /// slot is opened: the returned request names the position the move was
    /// played from and the move itself, and the caller must answer it with
    /// `record_score` before applying another move. A token that does not
    /// parse or does not apply marks the game failed and leaves the record
    /// unchanged; a failed game ignores all further moves.
    pub fn apply_san(&mut self, token: &str) -> (r: Option<EvalRequest>)
        requires
            old(self).wf(),
            old(self).ready(),
        ensures
            final(self).wf(),
            final(self).ok() ==> old(self).ok(),
            r matches Some(req) ==> {
                &&& old(self).ok() && final(self).ok()
                &&& !final(self).ready()
                &&& final(self).game.moves@ == old(self).game.moves@.push(req.uci)
                &&& final(self).game.scores == old(self).game.scores
                &&& final(self).game.middle_game == old(self).game.middle_game
                &&& final(self).game.end_game == old(self).game.end_game
            },
            r is None ==> {
                &&& !final(self).ok()
                &&& final(self).ready()
                &&& final(self).game == old(self).game
            },
    {
        if !self.success {
            return None;
        }
        let san = match board::parse_san(token) {
            Some(s) => s,
            None => {
                self.success = false;
                return None;
            },
        };
        let m = match board::san_move(&san, &self.pos) {
            Some(m) => m,
            None => {
                self.success = false;
                return None;
            },
        };
        let fen = board::position_epd(&self.pos);
        let uci = board::move_uci(&m, &self.pos);
        if !board::play_move(&mut self.pos, &m) {
            self.success = false;
            return None;
        }
        self.game.moves.push(uci.clone());
        self.pending_eval = true;
        Some(EvalRequest { fen, uci })
    }

    /// Marks the middlegame boundary at the current move index exactly
    /// when the given occupancy meets the middlegame condition (and the
    /// index is representable). Attempted only while the boundary is
    /// unset; nothing else changes.
    pub fn is_middle_game(&mut self, occ: &Occupancy)
        requires
            old(self).wf(),
            old(self).game.middle_game is None,
        ensures
            final(self).wf(),
            final(self).game == (Game {
                middle_game: final(self).game.middle_game,
                ..old(self).game
            }),
            phase::middlegame_condition(
                occ.minor_major as int,
                occ.white_back as int,
                occ.black_back as int,
            ) && old(self).move_counter <= i32::MAX ==> (final(self).game.middle_game matches Some(m) && m as int == old(self).move_counter as int),
            !(phase::middlegame_condition(
                occ.minor_major as int,
                occ.white_back as int,
                occ.black_back as int,
            ) && old(self).move_counter <= i32::MAX) ==> final(self).game.middle_game is None,
            final(self).ok() == old(self).ok(),
            final(self).ready() == old(self).ready(),
            final(self).move_counter == old(self).move_counter,
    {
        if phase::reaches_middlegame(occ) {
            if self.move_counter <= i32::MAX as usize {
                self.game.middle_game = Some(self.move_counter as i32);
            }
        }
    }

    /// Marks the endgame boundary at the current move index exactly when
    /// the given occupancy meets the endgame condition (and the index is
    /// representable). Attempted only after the middlegame boundary is set
    /// and while this one is unset; nothing else changes.
    pub fn is_end_game(&mut self, occ: &Occupancy)
        requires
            old(self).wf(),
            old(self).game.middle_game is Some,
            old(self).game.end_game is None,
        ensures
            final(self).wf(),
            final(self).game == (Game { end_game: final(self).game.end_game, ..old(self).game }),
            phase::endgame_condition(occ.minor_major as int) && old(self).move_counter
                <= i32::MAX ==> (final(self).game.end_game matches Some(e) && e as int == old(self).move_counter as int),
            !(phase::endgame_condition(occ.minor_major as int) && old(self).move_counter
                <= i32::MAX) ==> final(self).game.end_game is None,
            final(self).ok() == old(self).ok(),
            final(self).ready() == old(self).ready(),
            final(self).move_counter == old(self).move_counter,
    {
        if phase::reaches_endgame(occ) {
            if self.move_counter <= i32::MAX as usize {
                proof {
                    let m = self.game.middle_game->0;
                    assert(m as int <= self.move_counter as int);
                }
                self.game.end_game = Some(self.move_counter as i32);
            }
        }
    }

    /// Answers the open evaluation request with the engine's score. The
    /// score joins the record, the phase classifiers observe the new
    /// position, the blunder classifier compares the score against the
    /// previous one, and the evaluation slot closes.
    pub fn record_score(&mut self, score: i32)
        requires
            old(self).wf(),
            !old(self).ready(),
        ensures
            final(self).wf(),
            final(self).ready(),
            final(self).ok() == old(self).ok(),
            final(self).game.scores@ == old(self).game.scores@.push(score),
            final(self).game.moves == old(self).game.moves,
            final(self).game.id == old(self).game.id,
            final(self).game.white == old(self).game.white,
            final(self).game.black == old(self).game.black,
            final(self).game.winner == old(self).game.winner,
            old(self).game.middle_game is Some ==> final(self).game.middle_game == old(self).game.middle_game,
            old(self).game.end_game is Some ==> final(self).game.end_game == old(self).game.end_game,
            final(self).game.end_game != old(self).game.end_game ==> old(self).game.middle_game is Some,
    {
        let ghost old_scores = self.game.scores@;
        let idx = self.move_counter;
        let prev = self.last_score;
        if self.game.middle_game.is_none() {
            let occ = board::occupancy_of(&self.pos);
            self.is_middle_game(&occ);
        } else if self.game.end_game.is_none() {
            let occ = board::occupancy_of(&self.pos);
            self.is_end_game(&occ);
        }
        self.game.scores.push(score);
        if is_blunder(prev, score) {
            self.blunders.push(idx);
        }
        self.last_score = score;
        self.move_counter = self.game.scores.len();
        self.pending_eval = false;
        proof {
            lemma_flagged_prefix_stable(old_scores, score, old_scores.len() as int);
            assert(self.game.scores@ == old_scores.push(score));
            assert(self.game.scores@.last() == score);
            if old_scores.len() > 0 {
                assert(self.game.scores@[old_scores.len() - 1] == old_scores.last());
            }
            assert(self.blunders@.map_values(|u: usize| u as int) =~= flagged_upto(
                self.game.scores@,
                self.game.scores@.len() as int,
            ));
        }
    }

    /// Abandons the open evaluation request: the engine produced no score,
    /// so rather than record a guessed one, the unanswered move is dropped,
    /// the game is marked failed, and the machine is ready for the stream
    /// to resynchronize at the next game boundary.
    pub fn fail_eval(&mut self)
        requires
            old(self).wf(),
            !old(self).ready(),
        ensures
            final(self).wf(),
            final(self).ready(),
            !final(self).ok(),
            final(self).game.moves@ == old(self).game.moves@.drop_last(),
            final(self).game.scores == old(self).game.scores,
            final(self).game.middle_game == old(self).game.middle_game,
            final(self).game.end_game == old(self).game.end_game,
    {
        self.game.moves.pop();
        self.pending_eval = false;
        self.success = false;
    }

    /// Closes the game: the flagged indices are grouped into phase buckets
    /// and, when the game stayed valid, the finished record is yielded and
    /// the machine resets; a failed game yields nothing. In a yielded
    /// record the move and score lists have equal length, the middlegame
    /// boundary never exceeds the endgame boundary, and the three buckets
    /// are exactly the flagged indices of the score list split by phase.
    pub fn end_game(&mut self) -> (r: Option<Game>)
        requires
            old(self).wf(),
            old(self).ready(),
            old(self).game.moves@.len() <= i32::MAX,
        ensures
            final(self).wf(),
            final(self).ready(),
            r is Some <==> old(self).ok(),
            r matches Some(g) ==> {
                &&& g.moves == old(self).game.moves
                &&& g.scores == old(self).game.scores
                &&& g.moves@.len() == g.scores@.len()
                &&& g.id == old(self).game.id
                &&& g.opening_id == old(self).game.opening_id
                &&& g.white == old(self).game.white
                &&& g.black == old(self).game.black
                &&& g.white_rating == old(self).game.white_rating
                &&& g.black_rating == old(self).game.black_rating
                &&& g.winner == old(self).game.winner
                &&& g.middle_game == old(self).game.middle_game
                &&& g.end_game == old(self).game.end_game
                &&& (g.middle_game matches Some(m) ==> (g.end_game matches Some(e) ==> m <= e))
                &&& g.blunders.opening@.map_values(|v: i32| v as int) == flagged_upto(
                    g.scores@,
                    g.scores@.len() as int,
                ).filter(|x: int| phase_of(x, g.middle_game, g.end_game) == 0)
                &&& g.blunders.middle_game@.map_values(|v: i32| v as int) == flagged_upto(
                    g.scores@,
                    g.scores@.len() as int,
                ).filter(|x: int| phase_of(x, g.middle_game, g.end_game) == 1)
                &&& g.blunders.end_game@.map_values(|v: i32| v as int) == flagged_upto(
                    g.scores@,
                    g.scores@.len() as int,
                ).filter(|x: int| phase_of(x, g.middle_game, g.end_game) == 2)
            },
    {
        proof {
            lemma_flagged_bounds(self.game.scores@, self.game.scores@.len() as int);
            let flags = flagged_upto(self.game.scores@, self.game.scores@.len() as int);
            assert forall|j: int| 0 <= j < self.blunders@.len() implies #[trigger] self.blunders@[j]
                <= i32::MAX by {
                assert(self.blunders@.map_values(|u: usize| u as int)[j] == self.blunders@[j] as int);
                assert(flags[j] < self.game.scores@.len());
            }
        }
        let grouped = group_blunders_by_phase(
            &self.blunders,
            self.game.middle_game,
            self.game.end_game,
        );
        self.game.blunders = grouped;
        if self.success {
            let mut g = Game::empty();
            core::mem::swap(&mut self.game, &mut g);
            self.move_counter = 0;
            self.last_score = 0;
            self.blunders = Vec::new();
            self.pending_eval = false;
            proof {
                let flags = flagged_upto(g.scores@, g.scores@.len() as int);
                assert(g.blunders.opening@.map_values(|v: i32| v as int) =~= flags.filter(
                    |x: int| phase_of(x, g.middle_game, g.end_game) == 0,
                ));
                assert(g.blunders.middle_game@.map_values(|v: i32| v as int) =~= flags.filter(
                    |x: int| phase_of(x, g.middle_game, g.end_game) == 1,
                ));
                assert(g.blunders.end_game@.map_values(|v: i32| v as int) =~= flags.filter(
                    |x: int| phase_of(x, g.middle_game, g.end_game) == 2,
                ));
                assert(self.blunders@.map_values(|u: usize| u as int) =~= flagged_upto(
                    self.game.scores@,
                    self.game.scores@.len() as int,
                ));
            }
            Some(g)
        } else {
            None
        }
    }
}

} // verus!

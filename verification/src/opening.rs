//! Opening matching: finding the catalogued opening whose canonical move
//! sequence best matches a game's move prefix.
//!
//! A catalogue entry carries its moves as text in algebraic notation,
//! usually with move numbers. Matching tokenizes that text, skips the move
//! numbers, and counts the length of the common prefix with the game's
//! moves; the entry with the strictly greatest prefix length wins, ties
//! resolved in favour of the first candidate seen.

use vstd::prelude::*;
use crate::board;
use crate::text;
use crate::text::{all_digits, tokens_of};

verus! {

broadcast use vstd::string::group_string_axioms;

/// A catalogued opening: a classification code, a display name, and the
/// canonical move text.
#[derive(Clone, Debug)]
pub struct Opening {
    pub id: i32,
    pub eco: String,
    pub name: String,
    pub pgn: String,
}

impl Opening {
    /// Builds a catalogue entry from its parts.
    pub fn new(id: i32, eco: String, name: String, pgn: String) -> (o: Opening)
        ensures
            o.id == id,
            o.eco == eco,
            o.name == name,
            o.pgn == pgn,
    {
        Opening { id, eco, name, pgn }
    }
}

/// An opening-match request: a move prefix and the catalogue code whose
/// entries it should be matched against.
#[derive(Debug, Clone)]
pub struct OpeningRequest {
    pub moves: Vec<String>,
    pub eco: String,
}

/// The length of the common prefix between the catalogue tokens from `j`
/// on and the game moves from `k` on: tokens that are pure digit strings
/// (move numbers) are skipped, and the count stops at the first token that
/// differs from the next game move, or when either side runs out.
pub open spec fn sans_match_from(ts: Seq<Seq<char>>, ms: Seq<Seq<char>>, j: int, k: int) -> int
    decreases ts.len() - j,
{
    if j < 0 || j >= ts.len() || k < 0 || k >= ms.len() {
        0
    } else if all_digits(ts[j]) {
        sans_match_from(ts, ms, j + 1, k)
    } else if ts[j] == ms[k] {
        1 + sans_match_from(ts, ms, j + 1, k + 1)
    } else {
        0
    }
}

/// The matched prefix length of a catalogue move text against a game's
/// moves, both in algebraic notation.
pub open spec fn sans_prefix_len(pgn: Seq<char>, ms: Seq<Seq<char>>) -> int {
    sans_match_from(tokens_of(pgn), ms, 0, 0)
}

/// The matched prefix never exceeds the number of game moves.
pub proof fn lemma_sans_match_bound(ts: Seq<Seq<char>>, ms: Seq<Seq<char>>, j: int, k: int)
    requires
        0 <= k <= ms.len(),
    ensures
        0 <= sans_match_from(ts, ms, j, k) <= ms.len() - k,
    decreases ts.len() - j,
{
    if !(j < 0 || j >= ts.len() || k >= ms.len()) {
        if all_digits(ts[j]) {
            lemma_sans_match_bound(ts, ms, j + 1, k);
        } else if ts[j] == ms[k] {
            lemma_sans_match_bound(ts, ms, j + 1, k + 1);
        }
    }
}

/// Counts the matched move prefix of a catalogue entry against the game's
/// moves, both sides in algebraic notation.
pub fn match_length_sans(opening: &Opening, moves: &Vec<String>) -> (r: usize)
    ensures
        r as int == sans_prefix_len(opening.pgn@, moves.deep_view()),
        r <= moves@.len(),
{
    let tokens = text::tokenize(opening.pgn.as_str());
    let ghost ts = tokens.deep_view();
    let ghost ms = moves.deep_view();
    proof {
        lemma_sans_match_bound(ts, ms, 0, 0);
    }
    let mut j: usize = 0;
    let mut k: usize = 0;
    let nt = tokens.len();
    let nm = moves.len();
    while j < nt
        invariant
            0 <= j <= nt,
            0 <= k <= nm,
            nt == ts.len(),
            nm == ms.len(),
            ts == tokens.deep_view(),
            ms == moves.deep_view(),
            ts == tokens_of(opening.pgn@),
            sans_match_from(ts, ms, 0, 0) == k + sans_match_from(ts, ms, j as int, k as int),
            k as int + sans_match_from(ts, ms, j as int, k as int) <= nm,
        decreases nt - j,
    {
        proof {
            lemma_sans_match_bound(ts, ms, j as int, k as int);
        }
        if k >= nm {
            return k;
        }
        assert(tokens[j as int]@ == ts[j as int]);
        assert(moves[k as int]@ == ms[k as int]);
        if text::is_digits(tokens[j].as_str()) {
            j += 1;
            continue;
        }
        if text::str_eq(tokens[j].as_str(), moves[k].as_str()) {
            k += 1;
            j += 1;
        } else {
            return k;
        }
    }
    k
}

/// The length of the longest common prefix of two move lists.
pub open spec fn common_prefix_len(a: Seq<Seq<char>>, b: Seq<Seq<char>>) -> int
    decreases a.len(),
{
    if a.len() == 0 || b.len() == 0 {
        0
    } else if a[0] == b[0] {
        1 + common_prefix_len(a.drop_first(), b.drop_first())
    } else {
        0
    }
}

/// The common prefix is no longer than either list.
pub proof fn lemma_common_prefix_bound(a: Seq<Seq<char>>, b: Seq<Seq<char>>)
    ensures
        0 <= common_prefix_len(a, b) <= a.len(),
        common_prefix_len(a, b) <= b.len(),
    decreases a.len(),
{
    if a.len() > 0 && b.len() > 0 && a[0] == b[0] {
        lemma_common_prefix_bound(a.drop_first(), b.drop_first());
    }
}

/// Counts the longest common prefix of two move lists, compared as text.
pub fn prefix_count(candidate: &Vec<String>, moves: &Vec<String>) -> (r: usize)
    ensures
        r as int == common_prefix_len(candidate.deep_view(), moves.deep_view()),
        r <= candidate@.len(),
        r <= moves@.len(),
{
    let ghost a = candidate.deep_view();
    let ghost b = moves.deep_view();
    proof {
        lemma_common_prefix_bound(a, b);
        assert(a.skip(0) =~= a);
        assert(b.skip(0) =~= b);
    }
    let na = candidate.len();
    let nb = moves.len();
    let mut i: usize = 0;
    while i < na && i < nb
        invariant
            0 <= i <= na,
            0 <= i <= nb,
            na == a.len(),
            nb == b.len(),
            a == candidate.deep_view(),
            b == moves.deep_view(),
            common_prefix_len(a, b) == i + common_prefix_len(a.skip(i as int), b.skip(i as int)),
            i + common_prefix_len(a.skip(i as int), b.skip(i as int)) <= na,
            i + common_prefix_len(a.skip(i as int), b.skip(i as int)) <= nb,
        decreases na - i,
    {
        proof {
            lemma_common_prefix_bound(a.skip(i as int), b.skip(i as int));
            assert(a.skip(i as int)[0] == a[i as int]);
            assert(b.skip(i as int)[0] == b[i as int]);
            assert(a.skip(i as int).drop_first() =~= a.skip(i + 1));
            assert(b.skip(i as int).drop_first() =~= b.skip(i + 1));
        }
        assert(candidate[i as int]@ == a[i as int]);
        assert(moves[i as int]@ == b[i as int]);
        if !text::str_eq(candidate[i].as_str(), moves[i].as_str()) {
            return i;
        }
        i += 1;
        proof {
            lemma_common_prefix_bound(a.skip(i as int), b.skip(i as int));
        }
    }
    proof {
        assert(common_prefix_len(a.skip(i as int), b.skip(i as int)) == 0);
    }
    i
}

/// Replays a catalogue entry's move text on a fresh position through the
/// rules engine, rendering each applied move in coordinate notation. Move
/// numbers are skipped; replay stops at the first token that fails to
/// parse or to apply.
pub fn replay_candidate(opening: &Opening) -> (r: Vec<String>)
    ensures
        r@.len() <= tokens_of(opening.pgn@).len(),
{
    let tokens = text::tokenize(opening.pgn.as_str());
    let mut pos = board::starting_position();
    let mut line: Vec<String> = Vec::new();
    let mut j: usize = 0;
    let nt = tokens.len();
    while j < nt
        invariant
            0 <= j <= nt,
            nt == tokens@.len(),
            tokens.deep_view() == tokens_of(opening.pgn@),
            line@.len() <= j,
        decreases nt - j,
    {
        if !text::is_digits(tokens[j].as_str()) {
            let san = match board::parse_san(tokens[j].as_str()) {
                Some(s) => s,
                None => {
                    return line;
                },
            };
            let m = match board::san_move(&san, &pos) {
                Some(m) => m,
                None => {
                    return line;
                },
            };
            let uci = board::move_uci(&m, &pos);
            if !board::play_move(&mut pos, &m) {
                return line;
            }
            line.push(uci);
        }
        j += 1;
    }
    line
}

/// Counts the matched move prefix of a catalogue entry against the game's
/// moves in coordinate notation: the entry's tokens are replayed on a
/// fresh position through the rules engine (`replay_candidate`), and the
/// replayed coordinate sequence is compared against the game's moves by
/// `prefix_count`, whose contract fixes the count exactly. What the rules
/// engine makes of the tokens is outside this crate; everything after it
/// is not.
pub fn match_length(opening: &Opening, moves: &Vec<String>) -> (r: usize)
    ensures
        r <= moves@.len(),
{
    let candidate = replay_candidate(opening);
    prefix_count(&candidate, moves)
}

/// Whether `r` is the selection the matcher makes from the prefix lengths
/// of the candidates: the first candidate with a positive length that is
/// strictly greater than every earlier one and at least every later one,
/// or nothing when no candidate matched at all.
pub open spec fn is_best_choice(lens: Seq<int>, r: Option<int>) -> bool {
    match r {
        Some(i) => {
            &&& 0 <= i < lens.len()
            &&& lens[i] > 0
            &&& forall|j: int| 0 <= j < i ==> lens[j] < lens[i]
            &&& forall|j: int| 0 <= j < lens.len() ==> lens[j] <= lens[i]
        },
        None => forall|j: int| 0 <= j < lens.len() ==> lens[j] <= 0,
    }
}

/// The matcher's selection is a function of the prefix lengths alone: two
/// selections from the same lengths are the same. Matching the same move
/// prefix against the same catalogue subset twice yields the same entry.
pub proof fn lemma_best_choice_unique(lens: Seq<int>, r1: Option<int>, r2: Option<int>)
    requires
        is_best_choice(lens, r1),
        is_best_choice(lens, r2),
    ensures
        r1 == r2,
{
    match (r1, r2) {
        (Some(i1), Some(i2)) => {
            if i1 < i2 {
                assert(lens[i1] < lens[i2]);
                assert(lens[i2] <= lens[i1]);
            } else if i2 < i1 {
                assert(lens[i2] < lens[i1]);
                assert(lens[i1] <= lens[i2]);
            }
        },
        (Some(i1), None) => {
            assert(lens[i1] <= 0);
        },
        (None, Some(i2)) => {
            assert(lens[i2] <= 0);
        },
        (None, None) => {},
    }
}

/// Selects the index of the greatest positive length, first seen winning
/// ties: the selection satisfies `is_best_choice` over the given lengths.
pub fn best_index(lengths: &Vec<usize>) -> (r: Option<usize>)
    ensures
        match r {
            Some(i) => is_best_choice(lengths@.map_values(|u: usize| u as int), Some(i as int)),
            None => is_best_choice(lengths@.map_values(|u: usize| u as int), None),
        },
{
    let ghost lens = lengths@.map_values(|u: usize| u as int);
    let mut best: usize = 0;
    let mut best_at: Option<usize> = None;
    let mut i: usize = 0;
    while i < lengths.len()
        invariant
            0 <= i <= lengths@.len(),
            lens == lengths@.map_values(|u: usize| u as int),
            match best_at {
                Some(b) => {
                    &&& 0 <= b < i
                    &&& best == lengths@[b as int]
                    &&& best > 0
                    &&& forall|j: int| 0 <= j < b ==> lens[j] < best
                    &&& forall|j: int| 0 <= j < i ==> lens[j] <= best
                },
                None => best == 0 && forall|j: int| 0 <= j < i ==> lens[j] <= 0,
            },
        decreases lengths@.len() - i,
    {
        assert(lens[i as int] == lengths@[i as int] as int);
        if lengths[i] > best {
            best = lengths[i];
            best_at = Some(i);
        }
        i += 1;
    }
    best_at
}

/// The per-candidate matched prefix lengths of a list of replayed
/// candidate move lists against the game's moves.
pub open spec fn selection_lens(candidates: Seq<Seq<Seq<char>>>, moves: Seq<Seq<char>>) -> Seq<
    int,
> {
    Seq::new(candidates.len(), |i: int| common_prefix_len(candidates[i], moves))
}

/// Selects the best candidate among replayed coordinate move lists: the
/// first one whose common prefix with the game's moves is positive,
/// strictly greater than every earlier candidate's and at least every
/// later candidate's; nothing when no candidate matches at all.
pub fn select_opening(candidates: &Vec<Vec<String>>, moves: &Vec<String>) -> (r: Option<usize>)
    ensures
        match r {
            Some(i) => is_best_choice(
                selection_lens(candidates.deep_view(), moves.deep_view()),
                Some(i as int),
            ),
            None => is_best_choice(selection_lens(candidates.deep_view(), moves.deep_view()), None),
        },
{
    let ghost lens = selection_lens(candidates.deep_view(), moves.deep_view());
    let mut lengths: Vec<usize> = Vec::new();
    let mut k: usize = 0;
    while k < candidates.len()
        invariant
            0 <= k <= candidates@.len(),
            lens == selection_lens(candidates.deep_view(), moves.deep_view()),
            lens.len() == candidates@.len(),
            lengths@.len() == k,
            forall|t: int|
                0 <= t < k ==> #[trigger] lengths@[t] as int == lens[t],
        decreases candidates@.len() - k,
    {
        assert(candidates[k as int].deep_view() == candidates.deep_view()[k as int]);
        let n = prefix_count(&candidates[k], moves);
        lengths.push(n);
        k += 1;
    }
    let r = best_index(&lengths);
    proof {
        assert(lengths@.map_values(|u: usize| u as int) =~= lens);
    }
    r
}

/// The selection is a function of the candidates and the game's moves
/// alone: two selections from the same candidate lists and the same move
/// prefix are the same. Matching the same move prefix against the same
/// catalogue subset twice yields the same entry.
pub proof fn lemma_selection_idempotent(
    candidates: Seq<Seq<Seq<char>>>,
    moves: Seq<Seq<char>>,
    r1: Option<int>,
    r2: Option<int>,
)
    requires
        is_best_choice(selection_lens(candidates, moves), r1),
        is_best_choice(selection_lens(candidates, moves), r2),
    ensures
        r1 == r2,
{
    lemma_best_choice_unique(selection_lens(candidates, moves), r1, r2);
}

/// Replays every catalogue entry and selects the best candidate: the
/// replay is the rules engine's business (`replay_candidate`); the
/// selection rule over the replayed lists is fixed by `select_opening`'s
/// contract.
pub fn find_opening_index(openings: &Vec<Opening>, moves: &Vec<String>) -> (r: Option<usize>)
    ensures
        r matches Some(i) ==> i < openings@.len(),
{
    let mut candidates: Vec<Vec<String>> = Vec::new();
    let mut i: usize = 0;
    while i < openings.len()
        invariant
            0 <= i <= openings@.len(),
            candidates@.len() == i,
        decreases openings@.len() - i,
    {
        candidates.push(replay_candidate(&openings[i]));
        i += 1;
    }
    let r = select_opening(&candidates, moves);
    proof {
        if r matches Some(b) {
            assert(selection_lens(candidates.deep_view(), moves.deep_view()).len()
                == candidates@.len());
        }
    }
    r
}

} // verus!

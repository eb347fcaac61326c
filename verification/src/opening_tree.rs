//! A popularity tree of early moves: for every position reached in the
//! consumed games, how often each move was played from it.
//!
//! Positions are keyed by their board encoding; each key holds a histogram
//! of the moves played from that position. Walking the most popular move
//! from the starting position yields the crowd's principal line.

use vstd::prelude::*;
use shakmaty::{Chess, Move};
use crate::board;
use crate::text;

verus! {

broadcast use vstd::string::group_string_axioms;

/// One histogram entry: a move in coordinate notation and how often it
/// was played.
#[derive(Debug)]
pub struct MoveEntry {
    pub mv: String,
    pub n: usize,
}

/// The first position of `mv` among the entries from `i` on, or -1.
pub open spec fn entry_index(s: Seq<MoveEntry>, mv: Seq<char>, i: int) -> int
    decreases s.len() - i,
{
    if i < 0 || i >= s.len() {
        -1
    } else if s[i].mv@ == mv {
        i
    } else {
        entry_index(s, mv, i + 1)
    }
}

/// Whether `news` is `olds` with one more play of `mv` counted: the
/// matching entry's count raised in place (saturating) when one exists,
/// and a fresh entry with count one appended otherwise.
pub open spec fn move_inserted(olds: Seq<MoveEntry>, news: Seq<MoveEntry>, mv: Seq<char>) -> bool {
    let k = entry_index(olds, mv, 0);
    if k >= 0 {
        &&& news == olds.update(
            k,
            MoveEntry {
                mv: olds[k].mv,
                n: if olds[k].n == usize::MAX {
                    olds[k].n
                } else {
                    (olds[k].n + 1) as usize
                },
            },
        )
    } else {
        &&& news.len() == olds.len() + 1
        &&& news.take(olds.len() as int) == olds
        &&& news.last().mv@ == mv
        &&& news.last().n == 1
    }
}

/// Counts one play of `mv` in a histogram: the matching entry's count is
/// raised, or a fresh entry with count one is appended.
pub fn insert_move(moves: &mut Vec<MoveEntry>, mv: &str)
    ensures
        move_inserted(old(moves)@, final(moves)@, mv@),
{
    let ghost olds = moves@;
    let n = moves.len();
    let mut i: usize = 0;
    while i < n
        invariant
            0 <= i <= n,
            n == moves@.len(),
            olds == moves@,
            olds == old(moves)@,
            entry_index(olds, mv@, 0) == entry_index(olds, mv@, i as int),
        decreases n - i,
    {
        if text::str_eq(moves[i].mv.as_str(), mv) {
            let entry = moves.remove(i);
            let bumped = MoveEntry { mv: entry.mv, n: entry.n.saturating_add(1) };
            moves.insert(i, bumped);
            proof {
                assert(moves@ =~= olds.update(
                    i as int,
                    MoveEntry {
                        mv: olds[i as int].mv,
                        n: if olds[i as int].n == usize::MAX {
                            olds[i as int].n
                        } else {
                            (olds[i as int].n + 1) as usize
                        },
                    },
                ));
            }
            return ;
        }
        i += 1;
    }
    moves.push(MoveEntry { mv: String::from_str(mv), n: 1 });
    proof {
        assert(moves@.take(olds.len() as int) =~= olds);
    }
}

/// Whether `r` is the histogram's most popular move text: the first entry
/// holding the greatest positive count, or the conventional king's-pawn
/// opening when nothing was counted.
pub open spec fn is_most_popular(s: Seq<MoveEntry>, r: Seq<char>) -> bool {
    if forall|j: int| 0 <= j < s.len() ==> #[trigger] s[j].n == 0 {
        r == "e2e4"@
    } else {
        exists|i: int|
            {
                &&& 0 <= i < s.len()
                &&& r == #[trigger] s[i].mv@
                &&& s[i].n > 0
                &&& forall|j: int| 0 <= j < i ==> s[j].n < s[i].n
                &&& forall|j: int| 0 <= j < s.len() ==> s[j].n <= s[i].n
            }
    }
}

/// Picks the most played move of a histogram, the first entry winning
/// ties; an empty or unplayed histogram falls back to the conventional
/// king's-pawn opening.
pub fn find_most_popular(moves: &[MoveEntry]) -> (r: String)
    ensures
        is_most_popular(moves@, r@),
{
    proof {
        reveal_strlit("e2e4");
    }
    let mut n_max: usize = 0;
    let mut at: Option<usize> = None;
    let mut i: usize = 0;
    while i < moves.len()
        invariant
            0 <= i <= moves@.len(),
            match at {
                Some(b) => {
                    &&& 0 <= b < i
                    &&& n_max == moves@[b as int].n
                    &&& n_max > 0
                    &&& forall|j: int| 0 <= j < b ==> moves@[j].n < n_max
                    &&& forall|j: int| 0 <= j < i ==> moves@[j].n <= n_max
                },
                None => n_max == 0 && forall|j: int| 0 <= j < i ==> #[trigger] moves@[j].n == 0,
            },
        decreases moves@.len() - i,
    {
        if moves[i].n > n_max {
            n_max = moves[i].n;
            at = Some(i);
        }
        i += 1;
    }
    match at {
        Some(b) => String::from_str(moves[b].mv.as_str()),
        None => String::from_str("e2e4"),
    }
}

/// The first position of `key` among the keyed histograms from `i` on,
/// or -1.
pub open spec fn stat_index(s: Seq<(String, Vec<MoveEntry>)>, key: Seq<char>, i: int) -> int
    decreases s.len() - i,
{
    if i < 0 || i >= s.len() {
        -1
    } else if s[i].0@ == key {
        i
    } else {
        stat_index(s, key, i + 1)
    }
}

/// Whether `news` is `olds` with one play of `mv` counted under `key`:
/// the keyed histogram updated in place when the key exists, and a fresh
/// single-entry histogram appended otherwise.
pub open spec fn stat_updated(
    olds: Seq<(String, Vec<MoveEntry>)>,
    news: Seq<(String, Vec<MoveEntry>)>,
    key: Seq<char>,
    mv: Seq<char>,
) -> bool {
    let k = stat_index(olds, key, 0);
    if k >= 0 {
        &&& news.len() == olds.len()
        &&& forall|j: int| 0 <= j < olds.len() && j != k ==> news[j] == olds[j]
        &&& news[k].0 == olds[k].0
        &&& move_inserted(olds[k].1@, news[k].1@, mv)
    } else {
        &&& news.len() == olds.len() + 1
        &&& news.take(olds.len() as int) == olds
        &&& news.last().0@ == key
        &&& news.last().1@.len() == 1
        &&& news.last().1@[0].mv@ == mv
        &&& news.last().1@[0].n == 1
    }
}

/// Counts one play of `mv` under the position key `key`: the keyed
/// histogram gains the play in place, or a fresh single-entry histogram
/// joins under the new key.
pub fn record_move(stats: &mut Vec<(String, Vec<MoveEntry>)>, key: String, mv: String)
    ensures
        stat_updated(old(stats)@, final(stats)@, key@, mv@),
{
    let ghost olds = stats@;
    let n = stats.len();
    let mut i: usize = 0;
    while i < n
        invariant
            0 <= i <= n,
            n == stats@.len(),
            olds == stats@,
            olds == old(stats)@,
            stat_index(olds, key@, 0) == stat_index(olds, key@, i as int),
        decreases n - i,
    {
        if text::str_eq(stats[i].0.as_str(), key.as_str()) {
            let entry = stats.remove(i);
            let stored_key = entry.0;
            let mut hist = entry.1;
            insert_move(&mut hist, mv.as_str());
            stats.insert(i, (stored_key, hist));
            proof {
                assert(stat_updated(olds, stats@, key@, mv@));
            }
            return ;
        }
        i += 1;
    }
    let mut hist: Vec<MoveEntry> = Vec::new();
    hist.push(MoveEntry { mv, n: 1 });
    stats.push((key, hist));
    proof {
        assert(stats@.take(olds.len() as int) =~= olds);
        assert(stat_updated(olds, stats@, stats@.last().0@, stats@.last().1@[0].mv@));
    }
}

/// The move-popularity tree over a stream of games.
pub struct OpeningTree {
    pub games: usize,
    pub pos: Chess,
    pub success: bool,
    pub move_stat: Vec<(String, Vec<MoveEntry>)>,
}

impl OpeningTree {
    /// An empty tree at the starting position.
    pub fn new() -> (t: OpeningTree)
        ensures
            t.games == 0,
            t.success,
            t.move_stat@.len() == 0,
    {
        OpeningTree {
            games: 0,
            pos: board::starting_position(),
            success: true,
            move_stat: Vec::new(),
        }
    }

    /// Counts the move about to be played from the current position: the
    /// position's board encoding and the move's coordinate form come from
    /// the rules engine, and `record_move`'s contract fixes what happens
    /// to the statistics under that key.
    fn count_position(&mut self, m: &Move)
        ensures
            final(self).games == old(self).games,
            final(self).success == old(self).success,
            exists|key: Seq<char>, mv: Seq<char>|
                stat_updated(old(self).move_stat@, final(self).move_stat@, key, mv),
    {
        let fen = board::position_epd(&self.pos);
        let uci = board::move_uci(m, &self.pos);
        let ghost key = fen@;
        let ghost mv = uci@;
        record_move(&mut self.move_stat, fen, uci);
        proof {
            assert(stat_updated(old(self).move_stat@, self.move_stat@, key, mv));
        }
    }

    /// Starts the next game: fresh starting position, success flag raised,
    /// game counter advanced.
    pub fn begin_game(&mut self)
        ensures
            final(self).success,
            final(self).move_stat == old(self).move_stat,
            final(self).games == if old(self).games == usize::MAX {
                old(self).games
            } else {
                (old(self).games + 1) as usize
            },
    {
        self.games = self.games.saturating_add(1);
        self.pos = board::starting_position();
        self.success = true;
    }

    /// Records one header field: only a starting-position override is
    /// read, and a malformed one marks the game failed.
    pub fn header(&mut self, key: &str, value: &str)
        ensures
            final(self).games == old(self).games,
            final(self).move_stat == old(self).move_stat,
            final(self).success ==> old(self).success,
            key@ != "FEN"@ ==> final(self).success == old(self).success,
            old(self).success && key@ == "FEN"@ ==> final(self).success
                == crate::board::fen_playable(value@),
    {
        proof {
            reveal_strlit("FEN");
        }
        if text::str_eq(key, "FEN") {
            match board::fen_to_position(value) {
                Some(pos) => {
                    self.pos = pos;
                },
                None => {
                    self.success = false;
                },
            }
        }
    }

    /// Whether the rest of the game should be skipped after a failed
    /// header.
    pub fn end_headers(&self) -> (skip: bool)
        ensures
            skip == !self.success,
    {
        !self.success
    }

    /// Side variations are always skipped.
    pub fn begin_variation(&self) -> (skip: bool)
        ensures
            skip,
    {
        true
    }

    /// Applies one mainline move token: the move is counted under the
    /// current position and then played. A token that does not parse or
    /// does not apply marks the game failed; a failed game ignores its
    /// remaining moves.
    pub fn san(&mut self, token: &str)
        ensures
            final(self).games == old(self).games,
            final(self).success ==> old(self).success,
            !old(self).success ==> *final(self) == *old(self),
    {
        if self.success {
            let san = match board::parse_san(token) {
                Some(s) => s,
                None => {
                    self.success = false;
                    return ;
                },
            };
            let m = match board::san_move(&san, &self.pos) {
                Some(m) => m,
                None => {
                    self.success = false;
                    return ;
                },
            };
            self.count_position(&m);
            if !board::play_move(&mut self.pos, &m) {
                self.success = false;
            }
        }
    }

    /// Closes the game, reporting whether it was consumed without error.
    pub fn end_game(&self) -> (r: bool)
        ensures
            r == self.success,
    {
        self.success
    }
}

/// Whether `mv` is the most popular pick of one of the stored histograms.
pub open spec fn popular_pick(stats: Seq<(String, Vec<MoveEntry>)>, mv: Seq<char>) -> bool {
    exists|k: int| 0 <= k < stats.len() && is_most_popular(#[trigger] stats[k].1@, mv)
}

/// Walks the most popular move from the starting position through the
/// tree, for at most `limit` steps: at each position the most played move
/// is taken, until a position unknown to the tree is reached or the move
/// cannot be applied. Which histogram each step consults depends on the
/// board encodings, which are the rules engine's; that every emitted move
/// is the most popular pick of one of the stored histograms is not.
pub fn principal_line(stats: &Vec<(String, Vec<MoveEntry>)>, limit: usize) -> (line: Vec<String>)
    ensures
        line@.len() <= limit,
        forall|j: int| 0 <= j < line@.len() ==> popular_pick(stats@, #[trigger] line@[j]@),
{
    let mut pos = board::starting_position();
    let mut line: Vec<String> = Vec::new();
    let mut step: usize = 0;
    while step < limit
        invariant
            0 <= step <= limit,
            line@.len() == step,
            forall|j: int| 0 <= j < line@.len() ==> popular_pick(stats@, #[trigger] line@[j]@),
        decreases limit - step,
    {
        let fen = board::position_epd(&pos);
        let n = stats.len();
        let mut found: Option<usize> = None;
        let mut i: usize = 0;
        while i < n
            invariant
                0 <= i <= n,
                n == stats@.len(),
                found matches Some(k) ==> k < n,
            decreases n - i,
        {
            if text::str_eq(stats[i].0.as_str(), fen.as_str()) {
                found = Some(i);
                i = n;
            } else {
                i += 1;
            }
        }
        match found {
            Some(k) => {
                let mp = find_most_popular(stats[k].1.as_slice());
                let uci = match board::parse_uci(mp.as_str()) {
                    Some(u) => u,
                    None => {
                        return line;
                    },
                };
                let m = match board::uci_move(&uci, &pos) {
                    Some(m) => m,
                    None => {
                        return line;
                    },
                };
                if !board::play_move(&mut pos, &m) {
                    return line;
                }
                let ghost line_old = line@;
                line.push(mp);
                proof {
                    assert(is_most_popular(stats@[k as int].1@, line@.last()@));
                    assert(popular_pick(stats@, line@.last()@));
                    assert forall|j: int|
                        0 <= j < line@.len() implies popular_pick(
                        stats@,
                        #[trigger] line@[j]@,
                    ) by {
                        if j < line_old.len() {
                            assert(line@[j] == line_old[j]);
                        } else {
                            assert(line@[j] == line@.last());
                        }
                    }
                }
            },
            None => {
                return line;
            },
        }
        step += 1;
    }
    line
}

} // verus!

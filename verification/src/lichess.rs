//! Helpers for the games-service boundary: classifying a fetched document
//! and picking the game identifier out of a streamed chunk. The fetching
//! itself is I/O and lives with the caller.

use vstd::prelude::*;
use crate::text;
use crate::text::{contains_seq, matches_at};

verus! {

broadcast use vstd::string::group_string_axioms;

/// Why an analysis request failed: the games service was unreachable or
/// refused, the game text could not be consumed, or no such game exists.
#[derive(Debug, Clone, Copy, PartialEq, Eq, Structural)]
pub enum AnalysisErrors {
    Lichess,
    Pgn,
    NotFound,
}

/// Whether a fetched document is an error page rather than game text.
pub fn is_html_page(text: &str) -> (r: bool)
    ensures
        r == contains_seq(text@, "<!DOCTYPE html>"@),
{
    text::contains_str(text, "<!DOCTYPE html>")
}

/// Whether an eight-character game identifier starts at `at + 12` in the
/// chunk: the service's host name followed by a slash and at least eight
/// more characters.
pub open spec fn game_id_at(hay: Seq<char>, at: int) -> bool {
    matches_at(hay, "lichess.org/"@, at) && at + 20 <= hay.len()
}

/// Picks the game identifier out of a streamed chunk: the eight characters
/// after the first occurrence of the service's host name and a slash.
pub fn extract_game_id(chunk: &str) -> (r: Option<String>)
    ensures
        r is Some <==> exists|at: int| game_id_at(chunk@, at),
        r matches Some(id) ==> exists|at: int|
            {
                &&& #[trigger] game_id_at(chunk@, at)
                &&& id@ == chunk@.subrange(at + 12, at + 20)
                &&& forall|k: int| 0 <= k < at ==> !game_id_at(chunk@, k)
            },
{
    proof {
        reveal_strlit("lichess.org/");
        assert("lichess.org/"@.len() == 12);
    }
    let n = chunk.unicode_len();
    if n < 20 {
        assert(forall|at: int| !game_id_at(chunk@, at));
        return None;
    }
    let mut at: usize = 0;
    while at <= n - 20
        invariant
            0 <= at <= n - 20 + 1,
            20 <= n == chunk@.len(),
            "lichess.org/"@.len() == 12,
            forall|k: int| 0 <= k < at ==> !game_id_at(chunk@, k),
        decreases n - at,
    {
        let mut j: usize = 0;
        let mut hit = true;
        while j < 12
            invariant
                0 <= j <= 12,
                at + 20 <= n == chunk@.len(),
                "lichess.org/"@.len() == 12,
                hit == (forall|k: int| 0 <= k < j ==> chunk@[at + k] == "lichess.org/"@[k]),
            decreases 12 - j,
        {
            let hc = chunk.get_char(at + j);
            let nc = "lichess.org/".get_char(j);
            if hc != nc {
                hit = false;
                j = 12;
            } else {
                j += 1;
            }
        }
        if hit {
            proof {
                assert(chunk@.subrange(at as int, at + 12) =~= "lichess.org/"@);
                assert(game_id_at(chunk@, at as int));
            }
            let id = chunk.substring_char(at + 12, at + 20);
            return Some(String::from_str(id));
        }
        proof {
            assert(!matches_at(chunk@, "lichess.org/"@, at as int));
        }
        at += 1;
    }
    proof {
        assert(forall|k: int| k > n - 20 ==> !game_id_at(chunk@, k));
    }
    None
}

} // verus!

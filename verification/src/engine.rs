//! Engine protocol client logic.
//!
//! The external evaluation engine speaks a line-oriented text protocol: the
//! client sends configuration commands, a position-set command and a bounded
//! search command, and reads lines until one carries the completed-search
//! marker for the configured depth together with a score token. Everything
//! textual — building the command lines and parsing the response lines — is
//! verified here; the process itself, and the pipes to it, stay outside.
//!
//! The session is modelled as an explicit state machine with a single
//! evaluation slot: a request may be submitted only when the session is
//! idle, and the session stays busy until a line answers the request, so at
//! most one request is ever outstanding.

use vstd::prelude::*;
use crate::score::{normal_value, RawScore};
use crate::text;
use crate::text::{dec_rep, int_literal_val, is_int_literal, words_of};

verus! {

broadcast use vstd::string::group_string_axioms;

/// The first score token at or after word `i`: the word after the first
/// `cp` or `mate` marker, read as a decimal integer. Absent when no marker
/// follows, when the marker is the last word, or when the word after it is
/// not an integer that fits.
pub open spec fn score_from(ws: Seq<Seq<char>>, i: int) -> Option<RawScore>
    decreases ws.len() - i,
{
    if i < 0 || i >= ws.len() {
        None
    } else if ws[i] == "cp"@ {
        if i + 1 < ws.len() && is_int_literal(ws[i + 1]) && i32::MIN <= int_literal_val(ws[i + 1])
            <= i32::MAX {
            Some(RawScore::Centipawns(int_literal_val(ws[i + 1]) as i32))
        } else {
            None
        }
    } else if ws[i] == "mate"@ {
        if i + 1 < ws.len() && is_int_literal(ws[i + 1]) && i32::MIN <= int_literal_val(ws[i + 1])
            <= i32::MAX {
            Some(RawScore::MateIn(int_literal_val(ws[i + 1]) as i32))
        } else {
            None
        }
    } else {
        score_from(ws, i + 1)
    }
}

/// The score token of a response line: the first `cp` or `mate` word
/// followed by its integer value.
pub open spec fn line_score(line: Seq<char>) -> Option<RawScore> {
    score_from(words_of(line), 0)
}

/// Parses the score token out of one engine response line.
pub fn parse_score_token(line: &str) -> (r: Option<RawScore>)
    ensures
        r == line_score(line@),
{
    proof {
        reveal_strlit("cp");
        reveal_strlit("mate");
        assert("cp"@.len() == 2 && "cp"@[0] == 'c');
        assert("mate"@.len() == 4 && "mate"@[0] == 'm');
    }
    let words = text::split_words(line);
    let ghost ws = words.deep_view();
    let n = words.len();
    let mut i: usize = 0;
    while i < n
        invariant
            0 <= i <= n,
            n == ws.len(),
            ws == words.deep_view(),
            ws == words_of(line@),
            score_from(ws, 0) == score_from(ws, i as int),
            "cp"@.len() == 2,
            "mate"@.len() == 4,
        decreases n - i,
    {
        let is_cp = text::str_eq(words[i].as_str(), "cp");
        let is_mate = text::str_eq(words[i].as_str(), "mate");
        assert(words[i as int]@ == ws[i as int]);
        if is_cp || is_mate {
            if i + 1 < n {
                assert(words[i + 1]@ == ws[i + 1]);
                match text::parse_i32(words[i + 1].as_str()) {
                    Some(v) => {
                        if is_cp {
                            return Some(RawScore::Centipawns(v));
                        }
                        return Some(RawScore::MateIn(v));
                    },
                    None => {
                        return None;
                    },
                }
            }
            return None;
        }
        i += 1;
    }
    None
}

/// The normalized evaluation of a response line: the centipawn value as-is,
/// a mate distance folded onto the centipawn scale. Absent when the line
/// carries no score token, or a mate distance too large to fold.
pub open spec fn line_eval(line: Seq<char>) -> Option<i32> {
    match line_score(line) {
        Some(RawScore::Centipawns(v)) => Some(v),
        Some(RawScore::MateIn(n)) => if -100000 < n < 100000 {
            Some((if n >= 0 {
                100000 - n
            } else {
                -100000 - n
            }) as i32)
        } else {
            None
        },
        None => None,
    }
}

/// Parses and normalizes the evaluation of one engine response line.
pub fn eval_of_line(line: &str) -> (r: Option<i32>)
    ensures
        r == line_eval(line@),
        r matches Some(v) ==> (line_score(line@) matches Some(raw) && v as int == normal_value(
            raw,
        )),
{
    match parse_score_token(line) {
        Some(RawScore::Centipawns(v)) => Some(v),
        Some(RawScore::MateIn(n)) => {
            if -100000 < n && n < 100000 {
                Some(crate::score::normalize_score(RawScore::MateIn(n)))
            } else {
                None
            }
        },
        None => None,
    }
}

/// Whether a line is the engine's liveness acknowledgment.
pub fn is_ready_ack(line: &str) -> (r: bool)
    ensures
        r == (line@ == "readyok"@),
{
    text::str_eq(line, "readyok")
}

/// The completed-search marker for a given depth.
pub open spec fn depth_marker(depth: int) -> Seq<char> {
    "info depth "@ + dec_rep(depth)
}

/// Whether a response line completes the search at the given depth: it
/// carries the depth marker and a score token.
pub open spec fn completes_search(line: Seq<char>, depth: int) -> bool {
    text::contains_seq(line, depth_marker(depth)) && line_score(line) is Some
}

/// Decides whether a response line completes the search at `depth`.
pub fn line_completes_search(line: &str, depth: u32) -> (r: bool)
    ensures
        r == completes_search(line@, depth as int),
{
    proof {
        reveal_strlit("info depth ");
    }
    let mut marker = String::from_str("info depth ");
    let d = text::u32_to_string(depth);
    marker.append(d.as_str());
    if !text::contains_str(line, marker.as_str()) {
        return false;
    }
    match parse_score_token(line) {
        Some(_) => true,
        None => false,
    }
}

/// Builds one engine option command.
pub fn set_option_command(name: &str, value: u32) -> (r: String)
    ensures
        r@ == "setoption name "@ + name@ + " value "@ + dec_rep(value as int),
{
    proof {
        reveal_strlit("setoption name ");
        reveal_strlit(" value ");
    }
    let mut cmd = String::from_str("setoption name ");
    cmd.append(name);
    cmd.append(" value ");
    let v = text::u32_to_string(value);
    cmd.append(v.as_str());
    cmd
}

/// Builds the position-set command: the board encoding and the move to
/// play from it.
pub fn position_command(fen: &str, uci_moves: &str) -> (r: String)
    ensures
        r@ == "position fen "@ + fen@ + " moves "@ + uci_moves@,
{
    proof {
        reveal_strlit("position fen ");
        reveal_strlit(" moves ");
    }
    let mut cmd = String::from_str("position fen ");
    cmd.append(fen);
    cmd.append(" moves ");
    cmd.append(uci_moves);
    cmd
}

/// Builds the bounded search command with a fixed depth budget.
pub fn go_depth_command(depth: u32) -> (r: String)
    ensures
        r@ == "go depth "@ + dec_rep(depth as int),
{
    proof {
        reveal_strlit("go depth ");
    }
    let mut cmd = String::from_str("go depth ");
    let d = text::u32_to_string(depth);
    cmd.append(d.as_str());
    cmd
}

/// Builds the bounded search command with a fixed node budget.
pub fn go_nodes_command(nodes: u32) -> (r: String)
    ensures
        r@ == "go nodes "@ + dec_rep(nodes as int),
{
    proof {
        reveal_strlit("go nodes ");
    }
    let mut cmd = String::from_str("go nodes ");
    let n = text::u32_to_string(nodes);
    cmd.append(n.as_str());
    cmd
}

/// Builds the liveness probe.
pub fn ready_probe_command() -> (r: String)
    ensures
        r@ == "isready"@,
{
    String::from_str("isready")
}

/// The session's protocol state: configuring, waiting for the liveness
/// acknowledgment, idle, or holding the one in-flight request.
#[derive(Clone, Copy, Debug, PartialEq, Eq, Structural)]
pub enum SessionState {
    Configuring,
    AwaitingReady,
    Idle,
    Busy,
    Failed,
}

/// What one response line meant to the session.
#[derive(Clone, Copy, Debug, PartialEq, Eq, Structural)]
pub enum LineOutcome {
    Ignored,
    Ready,
    Evaluation(i32),
}

/// The protocol session: the explicit idle/busy request slot, the
/// configured search depth, and the count of liveness probes sent so far.
/// The process and its pipes live with the caller; the session decides
/// what may be sent when, and what each received line means.
pub struct EngineSession {
    pub state: SessionState,
    pub depth: u32,
    pub probes: u32,
}

impl EngineSession {
    /// A fresh session in the configuring state.
    pub fn new(depth: u32) -> (s: EngineSession)
        ensures
            s.state == SessionState::Configuring,
            s.depth == depth,
            s.probes == 0,
    {
        EngineSession { state: SessionState::Configuring, depth, probes: 0 }
    }

    /// Issues the liveness probe: allowed while configuring or while still
    /// unacknowledged, and never once evaluation has begun. Each retry is
    /// counted so the caller can back off.
    pub fn probe_ready(&mut self) -> (cmd: String)
        requires
            old(self).state == SessionState::Configuring || old(self).state
                == SessionState::AwaitingReady,
            old(self).probes < u32::MAX,
        ensures
            cmd@ == "isready"@,
            final(self).state == SessionState::AwaitingReady,
            final(self).depth == old(self).depth,
            final(self).probes == old(self).probes + 1,
    {
        self.state = SessionState::AwaitingReady;
        self.probes = self.probes + 1;
        ready_probe_command()
    }

    /// Submits the one evaluation request: only an idle session accepts
    /// one, and the session is busy until a line completes it, so requests
    /// are strictly serialized. Returns the position-set command and the
    /// search command to send, in that order.
    pub fn submit(&mut self, fen: &str, uci_moves: &str) -> (cmds: (String, String))
        requires
            old(self).state == SessionState::Idle,
        ensures
            final(self).state == SessionState::Busy,
            final(self).depth == old(self).depth,
            final(self).probes == old(self).probes,
            cmds.0@ == "position fen "@ + fen@ + " moves "@ + uci_moves@,
            cmds.1@ == "go depth "@ + dec_rep(old(self).depth as int),
    {
        self.state = SessionState::Busy;
        (position_command(fen, uci_moves), go_depth_command(self.depth))
    }

    /// Records that the in-flight request timed out: a session whose
    /// process stopped answering is desynchronized, so it accepts no
    /// further requests and must be replaced, never reused.
    pub fn on_timeout(&mut self)
        requires
            old(self).state == SessionState::Busy,
        ensures
            final(self).state == SessionState::Failed,
            final(self).depth == old(self).depth,
            final(self).probes == old(self).probes,
    {
        self.state = SessionState::Failed;
    }

    /// Whether the session must be replaced before any further request.
    pub fn needs_restart(&self) -> (r: bool)
        ensures
            r == (self.state == SessionState::Failed),
    {
        match self.state {
            SessionState::Failed => true,
            _ => false,
        }
    }

    /// Consumes one response line. Waiting for the liveness acknowledgment,
    /// only `readyok` moves the session to idle; busy, only a line that
    /// completes the search at the configured depth closes the slot and
    /// yields the normalized evaluation; every other line is ignored, and
    /// an idle or configuring session ignores everything.
    pub fn on_line(&mut self, line: &str) -> (out: LineOutcome)
        ensures
            final(self).depth == old(self).depth,
            final(self).probes == old(self).probes,
            old(self).state == SessionState::AwaitingReady && line@ == "readyok"@ ==> out
                == LineOutcome::Ready && final(self).state == SessionState::Idle,
            old(self).state == SessionState::AwaitingReady && line@ != "readyok"@ ==> out
                == LineOutcome::Ignored && final(self).state == old(self).state,
            old(self).state == SessionState::Busy && completes_search(
                line@,
                old(self).depth as int,
            ) && line_eval(line@) is Some ==> (out == LineOutcome::Evaluation(
                line_eval(line@)->0,
            ) && final(self).state == SessionState::Idle),
            old(self).state == SessionState::Busy && !(completes_search(
                line@,
                old(self).depth as int,
            ) && line_eval(line@) is Some) ==> out == LineOutcome::Ignored && final(self).state
                == old(self).state,
            old(self).state == SessionState::Configuring || old(self).state == SessionState::Idle
                || old(self).state == SessionState::Failed ==> out == LineOutcome::Ignored
                && final(self).state == old(self).state,
    {
        match self.state {
            SessionState::AwaitingReady => {
                if is_ready_ack(line) {
                    self.state = SessionState::Idle;
                    LineOutcome::Ready
                } else {
                    LineOutcome::Ignored
                }
            },
            SessionState::Busy => {
                if line_completes_search(line, self.depth) {
                    match eval_of_line(line) {
                        Some(v) => {
                            self.state = SessionState::Idle;
                            LineOutcome::Evaluation(v)
                        },
                        None => LineOutcome::Ignored,
                    }
                } else {
                    LineOutcome::Ignored
                }
            },
            _ => LineOutcome::Ignored,
        }
    }
}

} // verus!

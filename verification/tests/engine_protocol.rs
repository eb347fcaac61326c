use hubble::engine::{
    eval_of_line, go_depth_command, go_nodes_command, is_ready_ack, line_completes_search,
    parse_score_token, position_command, ready_probe_command, set_option_command, EngineSession,
    LineOutcome, SessionState,
};
use hubble::score::RawScore;

#[test]
fn parses_centipawn_token() {
    let line = "info depth 20 seldepth 31 score cp 13 nodes 1000000 pv e2e4";
    assert_eq!(parse_score_token(line), Some(RawScore::Centipawns(13)));
}

#[test]
fn parses_negative_centipawn_token() {
    let line = "info depth 20 score cp -245 nodes 5";
    assert_eq!(parse_score_token(line), Some(RawScore::Centipawns(-245)));
}

#[test]
fn parses_mate_token() {
    let line = "info depth 20 score mate 3 nodes 5";
    assert_eq!(parse_score_token(line), Some(RawScore::MateIn(3)));
}

#[test]
fn rejects_garbage_lines() {
    assert_eq!(parse_score_token("bestmove e2e4"), None);
    assert_eq!(parse_score_token("info depth 20 score cp banana"), None);
    assert_eq!(parse_score_token("info depth 20 score cp"), None);
    assert_eq!(parse_score_token(""), None);
}

#[test]
fn normalizes_mate_lines() {
    assert_eq!(eval_of_line("info depth 20 score mate 3"), Some(99997));
    assert_eq!(eval_of_line("info depth 20 score mate -2"), Some(-99998));
    assert_eq!(eval_of_line("info depth 20 score cp 42"), Some(42));
    assert_eq!(eval_of_line("no score here"), None);
}

#[test]
fn search_completion_marker() {
    let done = "info depth 20 seldepth 31 score cp 13 nodes 1000000";
    let shallow = "info depth 7 score cp 13";
    let scoreless = "info depth 20 currmove e2e4";
    assert!(line_completes_search(done, 20));
    assert!(!line_completes_search(shallow, 20));
    assert!(!line_completes_search(scoreless, 20));
}

#[test]
fn builds_protocol_commands() {
    assert_eq!(set_option_command("Hash", 8192), "setoption name Hash value 8192");
    assert_eq!(set_option_command("Threads", 10), "setoption name Threads value 10");
    assert_eq!(
        position_command("rnbqkbnr/pppppppp/8/8/8/8/PPPPPPPP/RNBQKBNR w KQkq -", "e2e4"),
        "position fen rnbqkbnr/pppppppp/8/8/8/8/PPPPPPPP/RNBQKBNR w KQkq - moves e2e4"
    );
    assert_eq!(go_depth_command(20), "go depth 20");
    assert_eq!(go_nodes_command(1000000), "go nodes 1000000");
    assert_eq!(ready_probe_command(), "isready");
}

#[test]
fn ready_acknowledgment() {
    assert!(is_ready_ack("readyok"));
    assert!(!is_ready_ack("uciok"));
}

#[test]
fn session_lifecycle() {
    let mut s = EngineSession::new(20);
    assert_eq!(s.state, SessionState::Configuring);
    let probe = s.probe_ready();
    assert_eq!(probe, "isready");
    assert_eq!(s.state, SessionState::AwaitingReady);
    assert_eq!(s.on_line("info string loaded"), LineOutcome::Ignored);
    assert_eq!(s.state, SessionState::AwaitingReady);
    assert_eq!(s.on_line("readyok"), LineOutcome::Ready);
    assert_eq!(s.state, SessionState::Idle);
    let (pos_cmd, go_cmd) = s.submit("8/8/8/8/8/8/8/K6k w - -", "a1a2");
    assert_eq!(pos_cmd, "position fen 8/8/8/8/8/8/8/K6k w - - moves a1a2");
    assert_eq!(go_cmd, "go depth 20");
    assert_eq!(s.state, SessionState::Busy);
    assert_eq!(s.on_line("info depth 5 score cp 10"), LineOutcome::Ignored);
    assert_eq!(s.state, SessionState::Busy);
    assert_eq!(s.on_line("info depth 20 score cp 42 nodes 9"), LineOutcome::Evaluation(42));
    assert_eq!(s.state, SessionState::Idle);
}

#[test]
fn session_retries_count_probes() {
    let mut s = EngineSession::new(20);
    s.probe_ready();
    s.probe_ready();
    s.probe_ready();
    assert_eq!(s.probes, 3);
}

#[test]
fn timed_out_session_needs_restart() {
    let mut s = EngineSession::new(20);
    s.probe_ready();
    s.on_line("readyok");
    s.submit("8/8/8/8/8/8/8/K6k w - -", "a1a2");
    s.on_timeout();
    assert!(s.needs_restart());
    assert_eq!(s.state, SessionState::Failed);
    assert_eq!(s.on_line("info depth 20 score cp 1"), LineOutcome::Ignored);
}

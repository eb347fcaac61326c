use hubble::lichess::{extract_game_id, is_html_page};
use hubble::opening::{
    best_index, find_opening_index, match_length, match_length_sans, prefix_count,
    replay_candidate, select_opening, Opening,
};
use hubble::opening_counter::{record_result, OpeningCounter, OpeningResult};
use hubble::opening_tree::{
    find_most_popular, insert_move, principal_line, record_move, MoveEntry, OpeningTree,
};
use hubble::report::{collect_openings, convert_to_string, format_row};

fn entry(id: i32, eco: &str, name: &str, pgn: &str) -> Opening {
    Opening::new(id, eco.to_string(), name.to_string(), pgn.to_string())
}

#[test]
fn sans_prefix_diverges_at_move_five() {
    let italian = entry(1, "C50", "Italian Game", "1. e4 e5 2. Nf3 Nc6 3. Bc4");
    let moves: Vec<String> =
        ["e4", "e5", "Nf3", "Nc6", "Bb5"].iter().map(|m| m.to_string()).collect();
    assert_eq!(match_length_sans(&italian, &moves), 4);
}

#[test]
fn sans_prefix_full_match() {
    let italian = entry(1, "C50", "Italian Game", "1. e4 e5 2. Nf3 Nc6 3. Bc4");
    let moves: Vec<String> =
        ["e4", "e5", "Nf3", "Nc6", "Bc4"].iter().map(|m| m.to_string()).collect();
    assert_eq!(match_length_sans(&italian, &moves), 5);
}

#[test]
fn sans_prefix_on_short_game() {
    let italian = entry(1, "C50", "Italian Game", "1. e4 e5 2. Nf3 Nc6 3. Bc4");
    let moves: Vec<String> = ["e4", "e5"].iter().map(|m| m.to_string()).collect();
    assert_eq!(match_length_sans(&italian, &moves), 2);
}

#[test]
fn coordinate_prefix_replays_the_candidate() {
    let open_game = entry(1, "C20", "Open Game", "1. e4 e5");
    let moves: Vec<String> = ["e2e4", "e7e5", "g1f3"].iter().map(|m| m.to_string()).collect();
    assert_eq!(match_length(&open_game, &moves), 2);
    let other: Vec<String> = ["d2d4"].iter().map(|m| m.to_string()).collect();
    assert_eq!(match_length(&open_game, &other), 0);
}

#[test]
fn replayed_candidate_is_in_coordinates() {
    let italian = entry(1, "C50", "Italian Game", "1. e4 e5 2. Nf3 Nc6 3. Bc4");
    assert_eq!(
        replay_candidate(&italian),
        vec!["e2e4", "e7e5", "g1f3", "b8c6", "f1c4"]
    );
    let broken = entry(2, "Z99", "Nonsense", "1. e4 zz e5");
    assert_eq!(replay_candidate(&broken), vec!["e2e4"]);
}

#[test]
fn prefix_count_stops_at_divergence() {
    let a: Vec<String> = ["e2e4", "e7e5", "g1f3"].iter().map(|m| m.to_string()).collect();
    let b: Vec<String> = ["e2e4", "e7e5", "b1c3"].iter().map(|m| m.to_string()).collect();
    assert_eq!(prefix_count(&a, &b), 2);
    assert_eq!(prefix_count(&a, &a), 3);
    let empty: Vec<String> = Vec::new();
    assert_eq!(prefix_count(&a, &empty), 0);
}

#[test]
fn selection_takes_first_greatest_positive() {
    let candidates: Vec<Vec<String>> = vec![
        ["e2e4"].iter().map(|m| m.to_string()).collect(),
        ["e2e4", "e7e5"].iter().map(|m| m.to_string()).collect(),
        ["e2e4", "e7e5"].iter().map(|m| m.to_string()).collect(),
    ];
    let moves: Vec<String> = ["e2e4", "e7e5"].iter().map(|m| m.to_string()).collect();
    assert_eq!(select_opening(&candidates, &moves), Some(1));
    let other: Vec<String> = ["d2d4"].iter().map(|m| m.to_string()).collect();
    assert_eq!(select_opening(&candidates, &other), None);
}

#[test]
fn best_index_prefers_first_greatest() {
    assert_eq!(best_index(&vec![2, 4, 4, 1]), Some(1));
    assert_eq!(best_index(&vec![0, 0, 0]), None);
    assert_eq!(best_index(&vec![]), None);
}

#[test]
fn find_opening_index_selects_longest() {
    let openings = vec![
        entry(1, "C20", "Open Game", "1. e4 e5"),
        entry(2, "C50", "Italian Game", "1. e4 e5 2. Nf3 Nc6 3. Bc4"),
    ];
    let moves: Vec<String> =
        ["e2e4", "e7e5", "g1f3", "b8c6", "f1c4"].iter().map(|m| m.to_string()).collect();
    assert_eq!(find_opening_index(&openings, &moves), Some(1));
    let none: Vec<String> = ["d2d4"].iter().map(|m| m.to_string()).collect();
    assert_eq!(find_opening_index(&openings, &none), None);
}

#[test]
fn tally_records_outcomes() {
    let mut tallies: Vec<(String, OpeningResult)> = Vec::new();
    record_result(&mut tallies, "Italian Game", 0);
    record_result(&mut tallies, "Italian Game", 2);
    record_result(&mut tallies, "Sicilian", 1);
    assert_eq!(tallies.len(), 2);
    assert_eq!(tallies[0].0, "Italian Game");
    assert_eq!(tallies[0].1.won, 1);
    assert_eq!(tallies[0].1.lost, 1);
    assert_eq!(tallies[0].1.tie, 0);
    assert_eq!(tallies[1].0, "Sicilian");
    assert_eq!(tallies[1].1.tie, 1);
}

#[test]
fn counter_credits_best_matching_opening() {
    let catalogue = vec![
        entry(1, "C50", "Giuoco Piano", "1. e4 e5 2. Nf3 Nc6 3. Bc4 Bc5"),
        entry(2, "C50", "Italian Game", "1. e4 e5 2. Nf3 Nc6 3. Bc4"),
        entry(3, "B20", "Sicilian", "1. e4 c5"),
    ];
    let mut c = OpeningCounter::new(catalogue, "alice".to_string(), None);
    c.begin_game();
    c.header("ECO", "C50");
    c.header("White", "alice");
    c.header("Result", "1-0");
    assert!(!c.end_headers());
    for m in ["e4", "e5", "Nf3", "Nc6", "Bc4", "Bc5"] {
        c.san(m);
    }
    assert!(!c.end_game());
    assert_eq!(c.openings.len(), 1);
    assert_eq!(c.openings[0].0, "Giuoco Piano");
    assert_eq!(c.openings[0].1.won, 1);
}

#[test]
fn counter_skip_follows_side_filter() {
    // a white-only filter keeps the games where the player was white
    let mut c = OpeningCounter::new(Vec::new(), "alice".to_string(), Some(true));
    c.begin_game();
    c.header("White", "alice");
    assert!(!c.end_headers());
    c.begin_game();
    c.header("White", "bob");
    assert!(c.end_headers());
    // without a filter nothing is skipped
    let mut c2 = OpeningCounter::new(Vec::new(), "alice".to_string(), None);
    c2.begin_game();
    c2.header("White", "bob");
    assert!(!c2.end_headers());
}

#[test]
fn counter_ignores_empty_games() {
    let mut c = OpeningCounter::new(Vec::new(), "alice".to_string(), None);
    c.begin_game();
    c.end_game();
    assert!(c.openings.is_empty());
}

#[test]
fn histogram_insert_and_pick() {
    let mut hist: Vec<MoveEntry> = Vec::new();
    insert_move(&mut hist, "e2e4");
    insert_move(&mut hist, "d2d4");
    insert_move(&mut hist, "e2e4");
    assert_eq!(hist.len(), 2);
    assert_eq!(hist[0].mv, "e2e4");
    assert_eq!(hist[0].n, 2);
    assert_eq!(hist[1].n, 1);
    assert_eq!(find_most_popular(hist.as_slice()), "e2e4");
}

#[test]
fn empty_histogram_falls_back() {
    let hist: Vec<MoveEntry> = Vec::new();
    assert_eq!(find_most_popular(hist.as_slice()), "e2e4");
}

#[test]
fn tree_counts_and_walks_the_popular_line() {
    let mut t = OpeningTree::new();
    t.begin_game();
    t.san("e4");
    t.san("e5");
    assert!(t.end_game());
    t.begin_game();
    t.san("e4");
    t.san("c5");
    assert!(t.end_game());
    t.begin_game();
    t.san("e4");
    t.san("e5");
    assert!(t.end_game());
    assert_eq!(t.games, 3);
    let line = principal_line(&t.move_stat, 4);
    assert_eq!(line, vec!["e2e4", "e7e5"]);
}

#[test]
fn keyed_move_recording() {
    let mut stats: Vec<(String, Vec<MoveEntry>)> = Vec::new();
    record_move(&mut stats, "start".to_string(), "e2e4".to_string());
    record_move(&mut stats, "start".to_string(), "e2e4".to_string());
    record_move(&mut stats, "after-e4".to_string(), "e7e5".to_string());
    assert_eq!(stats.len(), 2);
    assert_eq!(stats[0].0, "start");
    assert_eq!(stats[0].1.len(), 1);
    assert_eq!(stats[0].1[0].n, 2);
    assert_eq!(stats[1].0, "after-e4");
    assert_eq!(stats[1].1[0].mv, "e7e5");
}

#[test]
fn tree_rejects_illegal_mainlines() {
    let mut t = OpeningTree::new();
    t.begin_game();
    t.san("Ke4");
    assert!(!t.end_game());
    t.san("e4");
    assert!(!t.end_game());
}

#[test]
fn catalogue_rows_become_entries() {
    let rows: Vec<Vec<String>> = vec![
        format_row("eco\tname\tpgn"),
        format_row("C50\tItalian Game\t1. e4 e5 2. Nf3 Nc6 3. Bc4"),
        format_row("incomplete"),
        format_row("B20\tSicilian\t1. e4 c5"),
    ];
    let mut id: i32 = 7;
    let entries = collect_openings(&rows, &mut id);
    assert_eq!(entries.len(), 2);
    assert_eq!(entries[0].id, 7);
    assert_eq!(entries[0].eco, "C50");
    assert_eq!(entries[0].name, "Italian Game");
    assert_eq!(entries[1].id, 8);
    assert_eq!(entries[1].pgn, "1. e4 c5");
    assert_eq!(id, 9);
}

#[test]
fn report_cells_format_boundaries() {
    assert_eq!(convert_to_string(Some(12)), "12");
    assert_eq!(convert_to_string(Some(-5)), "-5");
    assert_eq!(convert_to_string(None), " ");
}

#[test]
fn html_pages_are_not_games() {
    assert!(is_html_page("<!DOCTYPE html><html></html>"));
    assert!(!is_html_page("[Event \"Casual game\"]"));
}

#[test]
fn game_id_extraction() {
    let chunk = "[Site \"https://lichess.org/KrIqzDbw\"]";
    assert_eq!(extract_game_id(chunk).as_deref(), Some("KrIqzDbw"));
    assert_eq!(extract_game_id("no identifier here"), None);
    assert_eq!(extract_game_id("lichess.org/abc"), None);
}

#[test]
fn tally_display_text() {
    let mut t = OpeningResult::new();
    t.won = 3;
    t.tie = 1;
    assert_eq!(t.describe(), "3 1 0");
}

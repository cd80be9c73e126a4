use engine_bench::codec::{parse_line, render_command, Command, EngineMessage, Progress};
use engine_bench::engine::{Engine, EngineError, EngineState};
use engine_bench::metrics::{BFactor, Nodes, Nps, Score, Time};
use engine_bench::search_result::SearchResult;
use engine_bench::snapshot::{parse_snapshot, render_snapshot};
use engine_bench::tabulator::Tabulator;

#[test]
fn commands_serialize_to_single_lines() {
    assert_eq!(render_command(&Command::StartHandshake), "start-handshake\n");
    assert_eq!(render_command(&Command::ResetSession), "reset-session\n");
    let set = Command::SetPosition { position: "startpos".to_string(), moves: Vec::new() };
    assert_eq!(render_command(&set), "set-position startpos\n");
    let set = Command::SetPosition {
        position: "startpos".to_string(),
        moves: vec!["e2e4".to_string(), "e7e5".to_string()],
    };
    assert_eq!(render_command(&set), "set-position startpos e2e4 e7e5\n");
    assert_eq!(render_command(&Command::StartSearch { depth: 10 }), "start-search depth 10\n");
}

#[test]
fn parse_recognizes_handshake_ack() {
    assert_eq!(parse_line("handshake-ack"), Some(EngineMessage::HandshakeAck));
    assert_eq!(parse_line("  handshake-ack  anything"), Some(EngineMessage::HandshakeAck));
}

#[test]
fn parse_recognizes_final_move() {
    assert_eq!(parse_line("best-move e2e4"), Some(EngineMessage::FinalMove("e2e4".to_string())));
    assert_eq!(
        parse_line("best-move e2e4 trailing"),
        Some(EngineMessage::FinalMove("e2e4".to_string()))
    );
    // A final-move line without a move carries nothing.
    assert_eq!(parse_line("best-move"), None);
}

#[test]
fn parse_extracts_progress_fields() {
    assert_eq!(
        parse_line("nodes 100 time 50"),
        Some(EngineMessage::ProgressInfo(Progress {
            nodes: Some(100),
            time_ms: Some(50),
            score: None
        }))
    );
    assert_eq!(
        parse_line("info depth 3 nodes 250 junk"),
        Some(EngineMessage::ProgressInfo(Progress { nodes: Some(250), time_ms: None, score: None }))
    );
    assert_eq!(
        parse_line("score -15"),
        Some(EngineMessage::ProgressInfo(Progress { nodes: None, time_ms: None, score: Some(-15) }))
    );
    assert_eq!(
        parse_line("time 18446744073709551615"),
        Some(EngineMessage::ProgressInfo(Progress {
            nodes: None,
            time_ms: Some(u64::MAX),
            score: None
        }))
    );
}

#[test]
fn parse_skips_malformed_and_unknown_lines() {
    assert_eq!(parse_line(""), None);
    assert_eq!(parse_line("   "), None);
    assert_eq!(parse_line("something else entirely"), None);
    assert_eq!(parse_line("nodes abc"), None);
    // Out-of-range values do not become fields.
    assert_eq!(parse_line("nodes 4294967296"), None);
    assert_eq!(parse_line("nodes 99999999999999999999999"), None);
    // The later occurrence of a field wins within one line too.
    assert_eq!(
        parse_line("nodes 1 nodes 2"),
        Some(EngineMessage::ProgressInfo(Progress { nodes: Some(2), time_ms: None, score: None }))
    );
}

#[test]
fn driver_reaches_ready_only_on_ack() {
    let mut e = Engine::new();
    assert_eq!(e.state, EngineState::Unstarted);
    let c = e.start();
    assert_eq!(render_command(&c), "start-handshake\n");
    assert_eq!(e.state, EngineState::Handshaking);
    // Anything except the acknowledgement is discarded.
    assert!(!e.on_handshake_line("id name something"));
    assert!(!e.on_handshake_line("nodes 5"));
    assert_eq!(e.state, EngineState::Handshaking);
    // The first acknowledgement makes the driver ready; only then can a
    // search start, so no search command is ever sent before this point.
    assert!(e.on_handshake_line("handshake-ack"));
    assert_eq!(e.state, EngineState::Ready);
    let cmds = e.search("startpos", 5);
    assert_eq!(e.state, EngineState::Searching);
    let lines: Vec<String> = cmds.iter().map(render_command).collect();
    assert_eq!(
        lines,
        vec![
            "reset-session\n".to_string(),
            "set-position startpos\n".to_string(),
            "start-search depth 5\n".to_string(),
        ]
    );
}

#[test]
fn search_merges_progress_per_field_and_finishes_on_final_move() {
    let mut e = Engine::new();
    e.start();
    e.on_handshake_line("handshake-ack");
    e.search("startpos", 5);
    assert!(e.on_search_line("nodes 100 time 50").is_none());
    assert!(e.on_search_line("nodes 250").is_none());
    let outcome = e.on_search_line("best-move e2e4").unwrap();
    assert_eq!(e.state, EngineState::Ready);
    let r = outcome.result.unwrap();
    // Last write wins per field, not per message: the second progress line
    // updated the node count but kept the earlier time.
    assert_eq!(r.nodes, Nodes(250));
    assert_eq!(r.time, Time(50));
    assert_eq!(r.nps, Nps(5));
    assert_eq!(r.score, Score(0));
    assert_eq!(r.depth, 5);
    assert_eq!(r.position, "startpos");
    assert_eq!(r.best_move, "e2e4");
    assert_eq!(r.branching_factor, BFactor(3));
    assert!(outcome.nodes_reported);
    assert!(outcome.time_reported);
    assert!(!outcome.score_reported);
}

#[test]
fn search_with_no_reported_time_fails_that_position() {
    let mut e = Engine::new();
    e.start();
    e.on_handshake_line("handshake-ack");
    e.search("startpos", 5);
    assert!(e.on_search_line("nodes 100").is_none());
    let outcome = e.on_search_line("best-move e2e4").unwrap();
    assert!(outcome.result.is_err());
    assert!(!outcome.time_reported);
    // The driver is back in ready state and can search the next position.
    assert_eq!(e.state, EngineState::Ready);
}

#[test]
fn stream_close_mid_wait_is_fatal() {
    let mut e = Engine::new();
    e.start();
    assert_eq!(e.on_stream_closed(), Some(EngineError::EngineUnavailable));
    assert_eq!(e.state, EngineState::Closed);

    let mut e = Engine::new();
    e.start();
    e.on_handshake_line("handshake-ack");
    assert_eq!(e.on_stream_closed(), None);
    assert_eq!(e.state, EngineState::Closed);
}

fn result(position: &str, depth: usize, nodes: u32, time: u64, score: i32, mv: &str) -> SearchResult {
    SearchResult::new(position.to_string(), depth, nodes, time, score, mv.to_string()).unwrap()
}

#[test]
fn snapshot_serializes_canonically() {
    let r = result("k", 2, 100, 50, -7, "mv");
    let s = render_snapshot(&vec![r]);
    assert_eq!(
        s,
        "[{\"position\":\"k\",\"depth\":2,\"nodes\":100,\"time\":50,\"nps\":2,\"score\":-7,\"branching_factor\":10,\"best_move\":\"mv\"}]"
    );
    assert_eq!(render_snapshot(&Vec::new()), "[]");
}

#[test]
fn snapshot_round_trip_is_identity() {
    let a = result("rnbq/pppp w - 0 1", 5, 1000, 50, 40, "e2e4");
    let b = result("pos \"quoted\" and \\slash", 8, 123456, 77, -3, "g8f6");
    let text = render_snapshot(&vec![a.clone(), b.clone()]);
    let back = parse_snapshot(&text).unwrap();
    assert_eq!(back.len(), 2);
    for (x, y) in [(&a, &back[0]), (&b, &back[1])] {
        assert_eq!(x.position, y.position);
        assert_eq!(x.depth, y.depth);
        assert_eq!(x.nodes, y.nodes);
        assert_eq!(x.time, y.time);
        assert_eq!(x.nps, y.nps);
        assert_eq!(x.score, y.score);
        assert_eq!(x.branching_factor, y.branching_factor);
        assert_eq!(x.best_move, y.best_move);
    }
}

#[test]
fn snapshot_parser_is_strict() {
    assert_eq!(parse_snapshot("[]").unwrap().len(), 0);
    assert!(parse_snapshot("").is_none());
    assert!(parse_snapshot("[] ").is_none());
    assert!(parse_snapshot("{\"position\":\"k\"}").is_none());
    let r = result("k", 2, 100, 50, -7, "mv");
    let mut s = render_snapshot(&vec![r]);
    s.push('x');
    assert!(parse_snapshot(&s).is_none());
}

#[test]
fn tabulator_draws_boxed_lines() {
    let t = Tabulator::new().cols(2).widths(&[3]).headings(&["A", "B"]);
    assert_eq!(t.header(), "┌─────┬─────┐\n│  A  │  B  │\n├─────┼─────┤");
    assert_eq!(t.footer(), "└─────┴─────┘\n");
    assert_eq!(t.row_separator(), "├─────┼─────┤");
    assert_eq!(t.row(&vec!["ab".to_string(), "x".to_string()]), "│ ab  │   x │");
    assert_eq!(t.width(), 14);
}

#[test]
fn tabulator_builder_cycles_widths_and_pads_headings() {
    let t = Tabulator::new().cols(3).widths(&[2, 4]).headings(&["A"]);
    assert_eq!(t.widths, vec![2, 4, 2]);
    assert_eq!(t.row_separator(), "├────┼──────┼────┤");
    assert_eq!(t.header(), "┌────┬──────┬────┐\n│ A  │      │    │\n├────┼──────┼────┤");
}

#[test]
fn tabulator_add_col_matches_builder() {
    let mut t = Tabulator::new();
    t.add_col("FEN", 7);
    t.add_col("Nodes", 5);
    assert_eq!(t.cols, 2);
    assert_eq!(t.widths, vec![7, 5]);
    assert_eq!(t.row_separator(), "├─────────┼───────┤");
}

#[test]
fn row_padding_ignores_invisible_escape_codes() {
    let t = Tabulator::new().cols(1).widths(&[3]);
    let plain = t.row(&vec!["ab".to_string()]);
    let colored = t.row(&vec!["\u{1b}[32mab\u{1b}[0m".to_string()]);
    // The colored cell is padded to the same visible width as the plain
    // one: stripping its escapes yields exactly the plain row.
    assert_eq!(strip_ansi_escapes::strip_str(&colored), plain);
    assert_ne!(colored, plain);
}

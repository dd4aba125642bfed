use ocdb_client::text::split_words;
use ocdb_client::uci::{
    is_ready, parse_info, search_commands, settings, Analysis, Handshake, InfoLine, LineEffect,
    Prefs, Setting,
};

fn info(depth: u32, score: &str, nps: &str, nodes: &str, time: &str, mate: &str, pv: &str) -> InfoLine {
    InfoLine {
        depth,
        score: score.to_string(),
        nps: nps.to_string(),
        nodes: nodes.to_string(),
        time_ms: time.to_string(),
        mate: mate.to_string(),
        pv: pv.to_string(),
    }
}

fn prefs(threads: Option<&str>, syzygy: Option<&str>) -> Prefs {
    Prefs {
        engine: "stockfish".to_string(),
        depth: 30,
        threads: threads.map(|s| s.to_string()),
        user_id: "u".to_string(),
        syzygy: syzygy.map(|s| s.to_string()),
    }
}

#[test]
fn an_info_line_gives_its_fields() {
    let line = "info depth 24 seldepth 33 multipv 1 score cp 31 nodes 1234567 nps 890123 \
                hashfull 512 tbhits 0 time 1387 pv e2e4 e7e5 g1f3";
    assert_eq!(
        parse_info(line),
        info(24, "31", "890123", "1234567", "1387", "", "e2e4 e7e5 g1f3")
    );
}

#[test]
fn a_mate_is_no_score() {
    assert_eq!(
        parse_info("info depth 9 score mate -3 pv h7h8"),
        info(9, "", "", "", "", "-3", "h7h8")
    );
}

#[test]
fn an_empty_line_gives_nothing() {
    assert_eq!(parse_info(""), info(0, "", "", "", "", "", ""));
    assert_eq!(parse_info("readyok"), InfoLine::default());
}

#[test]
fn a_depth_that_is_no_number_is_zero() {
    assert_eq!(parse_info("info depth x cp 1"), info(0, "1", "", "", "", "", ""));
    assert_eq!(parse_info("depth 4294967296").depth, 0);
    assert_eq!(parse_info("depth -1").depth, 0);
    assert_eq!(parse_info("depth 5 depth x").depth, 0);
}

#[test]
fn a_keyword_at_the_end_gives_nothing() {
    assert_eq!(parse_info("info depth 3 nodes"), info(3, "", "", "", "", "", ""));
    assert_eq!(parse_info("pv"), InfoLine::default());
}

#[test]
fn the_word_after_a_keyword_is_its_value_whatever_it_is() {
    assert_eq!(parse_info("cp nps 5"), info(0, "nps", "", "", "", "", ""));
    assert_eq!(parse_info("depth pv e2e4"), InfoLine::default());
}

#[test]
fn the_last_of_a_field_wins() {
    assert_eq!(parse_info("nodes 1 nodes 2 nodes 3").nodes, "3");
}

#[test]
fn everything_after_pv_is_the_pv() {
    let parsed = parse_info("info depth 1 pv e2e4   depth 7\tcp 5 ");
    assert_eq!(parsed, info(1, "", "", "", "", "", "e2e4 depth 7 cp 5"));
}

#[test]
fn fields_that_are_written_are_read_back() {
    let written = "info depth 7 cp -12 nps 100 nodes 200 time 300 mate 4 pv a2a3 a7a6";
    let parsed = parse_info(written);
    assert_eq!(parsed, info(7, "-12", "100", "200", "300", "4", "a2a3 a7a6"));
    assert_eq!(split_words(&parsed.pv), vec!["a2a3", "a7a6"]);
}

#[test]
fn an_analysis_shows_only_deeper_searches() {
    let mut a = Analysis::new();
    assert_eq!(a, Analysis { info: InfoLine::default(), ply: 0 });
    let lines = [
        ("info string hello", None, false),
        ("info depth 1 cp 10", Some(1), false),
        ("info depth 1 cp 11", None, false),
        ("info depth 3 cp 12", Some(3), false),
        ("info depth 2 cp 13", None, false),
        ("info depth 4 currmove e2e4", Some(4), false),
        ("info depth 4 cp 14 pv e2e4", None, false),
        ("bestmove e2e4 ponder e7e5", None, true),
    ];
    for (line, progress, finished) in lines {
        assert_eq!(a.on_line(line), LineEffect { progress, finished }, "{}", line);
    }
    assert_eq!(a.ply, 4);
    assert_eq!(a.info, info(4, "14", "", "", "", "", "e2e4"));
}

#[test]
fn the_last_info_line_wins_even_if_it_is_less_deep() {
    let mut a = Analysis::new();
    a.on_line("info depth 9 cp 1 pv e2e4");
    a.on_line("info depth 8 cp 2");
    a.on_line("info nodes 7");
    assert_eq!(a.info, info(8, "2", "", "", "", "", ""));
    assert_eq!(a.ply, 9);
}

#[test]
fn one_line_can_both_tell_and_finish() {
    let mut a = Analysis::new();
    assert_eq!(
        a.on_line("info depth 5 bestmove"),
        LineEffect { progress: Some(5), finished: true }
    );
}

#[test]
fn a_handshake_takes_the_name_of_the_engine() {
    let mut h = Handshake::new();
    assert_eq!(h.engine_name, "unknown");
    assert!(!h.on_line("Stockfish 17 by the Stockfish developers"));
    assert!(!h.on_line("id name Stockfish 17 "));
    assert!(!h.on_line("id author the Stockfish developers"));
    assert_eq!(h.engine_name, "Stockfish 17");
    assert!(h.on_line("uciok"));
    assert_eq!(h.engine_name, "Stockfish 17");
}

#[test]
fn an_engine_without_a_name_is_unknown() {
    let mut h = Handshake::new();
    assert!(!h.on_line(""));
    assert!(h.on_line(" uciok\r"));
    assert_eq!(h.engine_name, "unknown");
}

#[test]
fn a_name_is_taken_wherever_it_stands() {
    let mut h = Handshake::new();
    assert!(h.on_line("  id name A id name B uciok"));
    assert_eq!(h.engine_name, "A  B uciok");
    assert!(!h.on_line("id name"));
    assert_eq!(h.engine_name, "");
}

#[test]
fn only_readyok_is_ready() {
    assert!(is_ready("readyok"));
    assert!(is_ready("\treadyok \r"));
    assert!(!is_ready("readyok now"));
    assert!(!is_ready("ready ok"));
    assert!(!is_ready(""));
}

#[test]
fn settings_are_made_where_they_are_preferred() {
    let threads = || Setting {
        command: "setoption name Threads value 8\n".to_string(),
        notice: "🛠️  Setting threads to 8".to_string(),
    };
    let syzygy = || Setting {
        command: "setoption name SyzygyPath value /tb\n".to_string(),
        notice: "🛠️  Setting SyzygyPath to /tb".to_string(),
    };
    assert_eq!(settings(&prefs(None, None)), vec![]);
    assert_eq!(settings(&prefs(Some("8"), None)), vec![threads()]);
    assert_eq!(settings(&prefs(None, Some("/tb"))), vec![syzygy()]);
    assert_eq!(settings(&prefs(Some("8"), Some("/tb"))), vec![threads(), syzygy()]);
}

#[test]
fn an_empty_path_is_no_setting_but_an_empty_thread_count_is() {
    assert_eq!(settings(&prefs(None, Some(""))), vec![]);
    assert_eq!(
        settings(&prefs(Some(""), Some(""))),
        vec![Setting {
            command: "setoption name Threads value \n".to_string(),
            notice: "🛠️  Setting threads to ".to_string(),
        }]
    );
}

#[test]
fn a_search_is_started_by_three_commands() {
    assert_eq!(
        search_commands("8/8/8/8/8/8/8/K1k5 w - - 0 1", 30),
        vec!["ucinewgame\n", "position fen 8/8/8/8/8/8/8/K1k5 w - - 0 1\n", "go depth 30\n"]
    );
}

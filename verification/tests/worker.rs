use ocdb_client::pv::ShownPv;
use ocdb_client::report::report;
use ocdb_client::score::{score_submission, FenData, ScoreSubmission};
use ocdb_client::uci::{parse_info, Analysis, Handshake, InfoLine, Prefs};
use ocdb_client::worker::{conclude, conclude_with, finish, Action, Conclusion, Event, Worker};

const START: &str = "rnbqkbnr/pppppppp/8/8/8/8/PPPPPPPP/RNBQKBNR w KQkq - 0 1";

fn text(s: &str) -> String {
    s.to_string()
}

fn prefs() -> Prefs {
    Prefs {
        engine: text("stockfish"),
        depth: 12,
        threads: Some(text("4")),
        user_id: text("me"),
        syzygy: None,
    }
}

fn position() -> FenData {
    FenData { id: 99, fen: text(START) }
}

fn line(s: &str) -> Event {
    Event::Line(text(s))
}

fn requesting() -> Vec<Action> {
    vec![Action::Warn(text("\u{1b}[96mRequesting FEN...\u{1b}[0m")), Action::Fetch]
}

fn fetching() -> Worker {
    Worker::Fetching { engine_name: text("E 1") }
}

fn analysing(analysis: Analysis) -> Worker {
    Worker::Analysing { engine_name: text("E 1"), position: position(), analysis }
}

#[test]
fn a_conclusion_shows_and_hands_in_the_converted_line() {
    let info = parse_info("info depth 12 score cp 30 pv e2e4 e7e5");
    let end = conclude(&prefs(), "E 1", &position(), &info);
    assert_eq!(end.failure, None);
    assert_eq!(end.report, report(&info, "e4 e5"));
    assert_eq!(end.submission, score_submission("me", "E 1", 99, &info, "e4 e5"));
    assert_eq!(end.submission.pv, Some(text("e4 e5")));
}

#[test]
fn a_conclusion_hands_in_a_long_line_whole() {
    let long = "e4 ".repeat(30);
    let shown = ShownPv { text: text(long.trim()), failure: Some(text("f")) };
    let end = conclude_with(&prefs(), "E", &position(), &InfoLine::default(), shown);
    assert_eq!(end.failure, Some(text("f")));
    assert_eq!(end.submission.pv, Some(text(long.trim())));
    assert!(end.report.iter().any(|l| l.contains('…')));
}

#[test]
fn the_end_of_an_analysis_takes_its_actions_in_order() {
    let submission = || score_submission("me", "E", 5, &InfoLine::default(), "");
    let end = Conclusion {
        failure: Some(text("why")),
        report: vec![text("one"), text("two")],
        submission: submission(),
    };
    let mut expected = vec![
        Action::StopClock,
        Action::ShowDepth(20),
        Action::Tell(text("\n")),
        Action::Warn(text("why")),
        Action::Tell(text("one")),
        Action::Tell(text("two")),
        Action::Submit(submission()),
        Action::Beat,
        Action::TellTime,
    ];
    expected.extend(requesting());
    assert_eq!(finish(20, end), expected);
    let end = Conclusion { failure: None, report: vec![], submission: submission() };
    assert_eq!(finish(20, end).len(), 8);
}

#[test]
fn a_worker_greets_the_engine() {
    let (w, actions) = Worker::start();
    assert_eq!(actions, vec![Action::Send(text("uci\n"))]);
    assert_eq!(w, Worker::Greeting { handshake: Handshake { engine_name: text("unknown") } });
    let (w, actions) = w.on_event(&prefs(), line("id name E 1"));
    assert_eq!(actions, vec![]);
    let (w, actions) = w.on_event(&prefs(), Event::Unreadable);
    assert_eq!(actions, vec![]);
    assert_eq!(w, Worker::Greeting { handshake: Handshake { engine_name: text("E 1") } });
    let (w, actions) = w.on_event(&prefs(), line("uciok"));
    assert_eq!(w, Worker::Syncing { engine_name: text("E 1") });
    assert_eq!(
        actions,
        vec![
            Action::Send(text("setoption name Threads value 4\n")),
            Action::Tell(text("🛠️  Setting threads to 4")),
            Action::Send(text("isready\n")),
        ]
    );
}

#[test]
fn a_worker_waits_until_the_engine_is_ready() {
    let w = Worker::Syncing { engine_name: text("E 1") };
    let (w, actions) = w.on_event(&prefs(), line("info string ready"));
    assert_eq!((&w, actions), (&Worker::Syncing { engine_name: text("E 1") }, vec![]));
    let (w, actions) = w.on_event(&prefs(), Event::Unreadable);
    assert_eq!((&w, actions), (&Worker::Syncing { engine_name: text("E 1") }, vec![]));
    let (w, actions) = w.on_event(&prefs(), line("readyok"));
    assert_eq!((w, actions), (fetching(), requesting()));
}

#[test]
fn an_engine_that_says_no_more_is_not_waited_for() {
    let (w, _) = Worker::start();
    let (w, actions) = w.on_event(&prefs(), Event::Closed);
    assert_eq!(w, Worker::Syncing { engine_name: text("unknown") });
    assert_eq!(actions.last(), Some(&Action::Send(text("isready\n"))));
    let (w, actions) = w.on_event(&prefs(), Event::Closed);
    assert_eq!((w, actions), (Worker::Fetching { engine_name: text("unknown") }, requesting()));
}

#[test]
fn a_position_that_does_not_come_is_asked_for_again() {
    let (w, actions) = fetching().on_event(&prefs(), Event::Fetched(Err(text("down"))));
    assert_eq!(w, fetching());
    let mut expected = vec![
        Action::Warn(text("\u{1b}[91mFailed to fetch FEN: down\u{1b}[0m")),
        Action::Pause,
    ];
    expected.extend(requesting());
    assert_eq!(actions, expected);
}

#[test]
fn a_position_that_comes_is_analysed() {
    let (w, actions) = fetching().on_event(&prefs(), Event::Fetched(Ok(position())));
    assert_eq!(w, analysing(Analysis::new()));
    assert_eq!(
        actions,
        vec![
            Action::Tell("▔".repeat(80)),
            Action::Tell(format!("\n\u{1b}[96mFEN:\u{1b}[0m {}", START)),
            Action::Send(text("ucinewgame\n")),
            Action::Send(format!("position fen {}\n", START)),
            Action::Send(text("go depth 12\n")),
            Action::Tell(text("\u{1b}[92mStart Analysis...\u{1b}[0m")),
            Action::StartClock,
        ]
    );
}

#[test]
fn an_analysis_that_ends_is_told_and_handed_in() {
    let (w, actions) =
        analysing(Analysis::new()).on_event(&prefs(), line("info depth 3 score cp 5 pv e2e4"));
    assert_eq!(actions, vec![Action::ShowDepth(3)]);
    let (w, actions) = w.on_event(&prefs(), line("info string nothing"));
    assert_eq!(actions, vec![]);
    let (w, actions) = w.on_event(&prefs(), line("bestmove e2e4"));
    assert_eq!(w, fetching());
    let info = parse_info("info depth 3 score cp 5 pv e2e4");
    let mut expected =
        vec![Action::StopClock, Action::ShowDepth(12), Action::Tell(text("\n"))];
    expected.extend(report(&info, "e4").into_iter().map(Action::Tell));
    expected.push(Action::Submit(ScoreSubmission {
        user_id: text("me"),
        engine: text("E 1"),
        fen_id: 99,
        ply: 3,
        score: Some(text("5")),
        nps: None,
        nodes: None,
        time: None,
        pv: Some(text("e4")),
        mate: None,
    }));
    expected.push(Action::Beat);
    expected.push(Action::TellTime);
    expected.extend(requesting());
    assert_eq!(actions, expected);
}

#[test]
fn a_line_that_cannot_be_converted_is_warned_of() {
    let w = analysing(Analysis { info: parse_info("info depth 1 pv e2e5"), ply: 1 });
    let (_, actions) = w.on_event(&prefs(), line("bestmove e2e5"));
    assert_eq!(
        actions[3],
        Action::Warn(text(
            "\u{1b}[91mPV UCI->SAN conversion failed: \
             illegal move e2e5: IllegalUciMoveError\u{1b}[0m"
        ))
    );
    let submitted = actions.iter().any(
        |a| matches!(a, Action::Submit(s) if s.pv == Some(text("e2e5"))),
    );
    assert!(submitted);
}

#[test]
fn an_analysis_that_breaks_off_is_dropped() {
    for event in [Event::Unreadable, Event::Closed] {
        let (w, actions) = analysing(Analysis::new()).on_event(&prefs(), event);
        assert_eq!((w, actions), (fetching(), requesting()));
    }
}

#[test]
fn scores_answer_the_positions_that_were_handed_out() {
    let (mut w, _) = Worker::start();
    let mut fetches = 0;
    let mut submitted: Vec<u64> = Vec::new();
    let events = vec![
        line("id name E"),
        line("uciok"),
        line("readyok"),
        Event::Fetched(Err(text("busy"))),
        Event::Fetched(Ok(FenData { id: 1, fen: text(START) })),
        line("info depth 1 pv e2e4"),
        line("bestmove e2e4"),
        Event::Fetched(Ok(FenData { id: 2, fen: text(START) })),
        Event::Unreadable,
        Event::Fetched(Ok(FenData { id: 3, fen: text(START) })),
        line("bestmove d2d4"),
    ];
    for (i, event) in events.into_iter().enumerate() {
        let (next, actions) = w.on_event(&prefs(), event);
        w = next;
        for a in actions {
            match a {
                Action::Fetch => {
                    assert!(i >= 2);
                    fetches += 1;
                }
                Action::Submit(s) => submitted.push(s.fen_id),
                _ => {}
            }
        }
    }
    assert_eq!(submitted, vec![1, 3]);
    assert_eq!(fetches, 5);
    assert_eq!(w, Worker::Fetching { engine_name: text("E") });
}

#[test]
fn a_score_is_of_all_lines_of_the_engine() {
    let lines = [
        "info depth 1 score cp 1 pv e2e4",
        "info depth 2 score cp 2 pv d2d4",
        "info string cp 99",
        "info depth 2 score cp 3 pv c2c4 e7e5",
    ];
    let mut w = analysing(Analysis::new());
    for l in lines {
        let (next, actions) = w.on_event(&prefs(), line(l));
        assert!(!actions.iter().any(|a| matches!(a, Action::Submit(_))));
        w = next;
    }
    let (w, actions) = w.on_event(&prefs(), line("bestmove c2c4"));
    assert_eq!(w, fetching());
    let scores: Vec<&ScoreSubmission> = actions
        .iter()
        .filter_map(|a| match a {
            Action::Submit(s) => Some(s),
            _ => None,
        })
        .collect();
    let info = parse_info(lines[3]);
    assert_eq!(scores, vec![&score_submission("me", "E 1", 99, &info, "c4 e5")]);
}

#[test]
fn a_name_after_the_greeting_changes_nothing() {
    let (w, _) = Worker::start();
    let (w, _) = w.on_event(&prefs(), line("id name E 1"));
    let (w, _) = w.on_event(&prefs(), line("uciok"));
    let (w, _) = w.on_event(&prefs(), line("id name Other"));
    assert_eq!(w, Worker::Syncing { engine_name: text("E 1") });
    let (w, _) = w.on_event(&prefs(), line("readyok"));
    let (w, _) = w.on_event(&prefs(), Event::Fetched(Ok(position())));
    let (w, _) = w.on_event(&prefs(), line("id name Other"));
    assert_eq!(w, analysing(Analysis::new()));
}

#[test]
fn a_worker_asks_exactly_for_what_it_awaits() {
    let events = || {
        vec![
            (Worker::start().0, line("hello")),
            (Worker::start().0, line("uciok")),
            (Worker::Syncing { engine_name: text("E 1") }, line("readyok")),
            (Worker::Syncing { engine_name: text("E 1") }, line("other")),
            (fetching(), Event::Fetched(Err(text("down")))),
            (fetching(), Event::Fetched(Ok(position()))),
            (analysing(Analysis::new()), line("info depth 1")),
            (analysing(Analysis::new()), line("bestmove e2e4")),
            (analysing(Analysis::new()), Event::Unreadable),
        ]
    };
    for (w, event) in events() {
        let (next, actions) = w.on_event(&prefs(), event);
        let asks = actions.iter().filter(|a| **a == Action::Fetch).count();
        let awaits = matches!(next, Worker::Fetching { .. });
        assert_eq!(asks, if awaits { 1 } else { 0 });
    }
}

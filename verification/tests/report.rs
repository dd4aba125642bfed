use ocdb_client::report::{
    analysis_rows, depth_bar, elapsed_notice, fmt_elapsed, report, shorten, spinner_frame, table,
    Row, BAR_WIDTH, MAX_VALUE_WIDTH, SPINNER_CLEAR,
};
use ocdb_client::style::{coloured, labelled, GREEN};
use ocdb_client::uci::{parse_info, InfoLine};

fn width(s: &str) -> usize {
    s.chars().count()
}

#[test]
fn times_are_written_with_hours_only_where_there_are_any() {
    assert_eq!(fmt_elapsed(0), "0:00");
    assert_eq!(fmt_elapsed(9), "0:09");
    assert_eq!(fmt_elapsed(59), "0:59");
    assert_eq!(fmt_elapsed(60), "1:00");
    assert_eq!(fmt_elapsed(3599), "59:59");
    assert_eq!(fmt_elapsed(3600), "1:00:00");
    assert_eq!(fmt_elapsed(3661), "1:01:01");
    assert_eq!(fmt_elapsed(86399), "23:59:59");
    assert_eq!(fmt_elapsed(360_000), "100:00:00");
    assert_eq!(fmt_elapsed(u64::MAX), "5124095576030431:00:15");
}

#[test]
fn different_times_are_written_differently() {
    let mut written: Vec<String> = (0..8000).map(fmt_elapsed).collect();
    written.sort();
    written.dedup();
    assert_eq!(written.len(), 8000);
}

#[test]
fn the_user_is_told_the_time() {
    assert_eq!(elapsed_notice(75), "\u{1b}[94mElapsed Time:\u{1b}[0m 1:15\n");
}

#[test]
fn a_bar_shows_the_depth() {
    assert_eq!(depth_bar(3, 12, 1, 4), "\r      Depth 3/12 [█░░░] ");
    assert_eq!(depth_bar(0, 0, 0, 0), "\r      Depth 0/0 [] ");
    assert_eq!(depth_bar(4, 4, 4, 4), "\r      Depth 4/4 [████] ");
}

#[test]
fn a_bar_has_all_its_cells() {
    let empty = depth_bar(1, 1, 0, BAR_WIDTH);
    for done in 0..=BAR_WIDTH {
        let s = depth_bar(1, 1, done, BAR_WIDTH);
        assert_eq!(width(&s), width(&empty));
        assert_eq!(s.chars().filter(|c| *c == '█').count(), done);
        assert_eq!(s.chars().filter(|c| *c == '░').count(), BAR_WIDTH - done);
    }
}

#[test]
fn a_spinner_turns_through_its_signs_and_colours() {
    assert_eq!(spinner_frame(0), "\r\u{1b}[31m⠋\u{1b}[0m  ");
    assert_eq!(spinner_frame(7), "\r\u{1b}[33m⠧\u{1b}[0m  ");
    assert_eq!(spinner_frame(11), "\r\u{1b}[35m⠙\u{1b}[0m  ");
    for i in 0..60 {
        assert_eq!(spinner_frame(i), spinner_frame(i + 30));
    }
    assert_eq!(SPINNER_CLEAR, "\r   \r");
}

#[test]
fn long_texts_are_shortened() {
    let forty = "x".repeat(40);
    assert_eq!(shorten(&forty), forty);
    assert_eq!(shorten(&"x".repeat(41)), format!("{}…", "x".repeat(39)));
    assert_eq!(shorten(&"é".repeat(100)), format!("{}…", "é".repeat(39)));
    assert_eq!(shorten(""), "");
    assert_eq!(width(&shorten(&"y".repeat(1000))), MAX_VALUE_WIDTH);
}

#[test]
fn results_have_their_rows() {
    let info = parse_info("info depth 20 score cp -15 nodes 5 nps 6 time 7 pv e2e4");
    let rows = analysis_rows(&info, "e4");
    let expected = [
        ("Ply", "20"),
        ("Score", "-15"),
        ("NPS", "6"),
        ("Mate", ""),
        ("PV", "e4"),
        ("Nodes", "5"),
        ("Time(ms)", "7"),
    ];
    assert_eq!(rows.len(), expected.len());
    for (row, (label, value)) in rows.iter().zip(expected) {
        assert_eq!((row.label, row.value.as_str()), (label, value));
    }
}

#[test]
fn a_report_is_a_title_and_a_table() {
    let info = parse_info("info depth 20 score cp -15 nodes 5 nps 6 time 7 pv e2e4");
    assert_eq!(
        report(&info, "e4"),
        vec![
            "\u{1b}[1m\u{1b}[95mEngine Analysis Complete\u{1b}[0m",
            "┌──────────┬─────────────┐",
            "│ Ply      │ 20          │",
            "│ Score    │ -15         │",
            "│ NPS      │ 6           │",
            "│ Mate     │             │",
            "├──────────┼─────────────┤",
            "│ PV       │ e4          │",
            "│ Nodes    │ 5           │",
            "│ Time(ms) │ 7           │",
            "└──────────┴─────────────┘",
        ]
    );
}

#[test]
fn a_table_grows_with_its_values_up_to_a_limit() {
    for n in [0usize, 10, 11, 12, 39, 40, 41, 200] {
        let lines = report(&InfoLine::default(), &"é".repeat(n));
        let expected = n.clamp(11, 40) + 15;
        assert_eq!(lines.len(), 11);
        for line in &lines[1..] {
            assert_eq!(width(line), expected);
        }
    }
}

#[test]
fn a_value_that_is_too_long_stands_out_of_its_row() {
    let info = InfoLine { score: "9".repeat(50), ..InfoLine::default() };
    let lines = report(&info, "");
    assert_eq!(width(&lines[1]), 55);
    assert_eq!(width(&lines[2]), 55);
    assert_eq!(width(&lines[3]), 65);
}

#[test]
fn a_table_fits_any_labels() {
    assert_eq!(table(&vec![]), vec!["┌──┬─────────────┐", "└──┴─────────────┘"]);
    let rows = vec![
        Row { label: "a", value: "1".to_string() },
        Row { label: "éé", value: "2".to_string() },
    ];
    assert_eq!(
        table(&rows),
        vec![
            "┌────┬─────────────┐",
            "│ a  │ 1           │",
            "│ éé │ 2           │",
            "└────┴─────────────┘",
        ]
    );
}

#[test]
fn colours_end_where_they_should() {
    assert_eq!(coloured(GREEN, "go"), "\u{1b}[92mgo\u{1b}[0m");
    assert_eq!(labelled(GREEN, "a:", "b"), "\u{1b}[92ma:\u{1b}[0m b");
}

#[test]
fn the_lines_of_a_table_are_of_one_width() {
    let rows: Vec<Row> = ["a", "bbb", "cc", "dddd", "e"]
        .into_iter()
        .map(|label| Row { label, value: label.repeat(7) })
        .collect();
    let lines = table(&rows);
    assert_eq!(lines.len(), 8);
    for line in &lines {
        assert_eq!(width(line), 4 + 28 + 7);
    }
}

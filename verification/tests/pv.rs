use ocdb_client::pv::{
    choose_pv, convert_pv, pv_display, pv_report, uci_pv_to_san, PvOutcome, ShownPv,
};
use ocdb_client::text::split_words;
use shakmaty::fen::Fen;
use shakmaty::{CastlingMode, Chess};

const START: &str = "rnbqkbnr/pppppppp/8/8/8/8/PPPPPPPP/RNBQKBNR w KQkq - 0 1";

fn ok(s: &str) -> Result<String, String> {
    Ok(s.to_string())
}

fn err(s: &str) -> Result<String, String> {
    Err(s.to_string())
}

#[test]
fn a_line_from_the_start_is_converted() {
    assert_eq!(uci_pv_to_san(START, "e2e4 e7e5 g1f3"), ok("e4 e5 Nf3"));
}

#[test]
fn white_space_between_moves_does_not_matter() {
    assert_eq!(uci_pv_to_san(START, "  e2e4\te7e5 \n"), ok("e4 e5"));
    assert_eq!(uci_pv_to_san(START, "   "), ok(""));
    assert_eq!(uci_pv_to_san(START, ""), ok(""));
}

#[test]
fn castling_is_converted() {
    let fen = "r3k2r/8/8/8/8/8/8/R3K2R w KQkq - 0 1";
    assert_eq!(uci_pv_to_san(fen, "e1g1 e8c8"), ok("O-O O-O-O"));
}

#[test]
fn a_capturing_promotion_is_converted_without_a_sign_for_check() {
    let fen = "1n2k3/P7/8/8/8/8/8/4K3 w - - 0 1";
    assert_eq!(uci_pv_to_san(fen, "a7b8q"), ok("axb8=Q"));
    assert_eq!(uci_pv_to_san(fen, "a7a8n b8c6"), ok("a8=N Nc6"));
}

#[test]
fn en_passant_is_converted() {
    assert_eq!(
        uci_pv_to_san(START, "e2e4 a7a6 e4e5 d7d5 e5d6"),
        ok("e4 a6 e5 d5 exd6")
    );
}

#[test]
fn pieces_are_told_apart_by_their_file() {
    let fen = "4k3/8/8/8/8/8/8/R4RK1 w - - 0 1";
    assert_eq!(uci_pv_to_san(fen, "a1d1"), ok("Rad1"));
    assert_eq!(uci_pv_to_san(fen, "f1d1"), ok("Rfd1"));
}

#[test]
fn a_record_that_is_none_is_refused() {
    let detail = format!("{:?}", "not a fen".parse::<Fen>().unwrap_err());
    assert_eq!(convert_pv("not a fen", "e2e4"), PvOutcome::BadFen(detail.clone()));
    assert_eq!(
        uci_pv_to_san("not a fen", "e2e4"),
        Err(format!("fen parse error: {}", detail))
    );
}

#[test]
fn a_position_that_cannot_be_is_refused() {
    let fen = "8/8/8/8/8/8/8/8 w - - 0 1";
    let setup: Fen = fen.parse().unwrap();
    let detail = format!("{:?}", setup.into_position::<Chess>(CastlingMode::Standard).unwrap_err());
    assert_eq!(convert_pv(fen, "e2e4"), PvOutcome::BadPosition(detail.clone()));
    assert_eq!(uci_pv_to_san(fen, ""), Err(format!("position error: {}", detail)));
}

#[test]
fn a_word_that_is_no_move_is_refused() {
    assert_eq!(
        uci_pv_to_san(START, "e2e4 castle e7e5"),
        err("uci parse error on castle: ParseUciMoveError")
    );
}

#[test]
fn a_move_that_is_not_legal_is_refused() {
    assert_eq!(
        uci_pv_to_san(START, "e2e4 e2e4"),
        err("illegal move e2e4: IllegalUciMoveError")
    );
    assert_eq!(uci_pv_to_san(START, "0000"), err("illegal move 0000: IllegalUciMoveError"));
}

#[test]
fn the_first_wrong_move_is_the_one_that_is_told() {
    assert_eq!(
        convert_pv(START, "e2e5 nonsense"),
        PvOutcome::IllegalMove {
            uci: "e2e5".to_string(),
            detail: "IllegalUciMoveError".to_string(),
        }
    );
    assert_eq!(
        convert_pv(START, "nonsense e2e5"),
        PvOutcome::BadMove {
            uci: "nonsense".to_string(),
            detail: "ParseUciMoveError".to_string(),
        }
    );
}

#[test]
fn a_line_converts_just_where_each_move_is_legal() {
    let line = ["e2e4", "e7e5", "g1f3", "b8c6", "f1b5"];
    let san = ["e4", "e5", "Nf3", "Nc6", "Bb5"];
    for n in 0..=line.len() {
        assert_eq!(uci_pv_to_san(START, &line[..n].join(" ")), ok(&san[..n].join(" ")));
    }
    assert!(uci_pv_to_san(START, "e2e4 e7e5 e4e5").is_err());
}

#[test]
fn a_conversion_keeps_the_number_of_moves() {
    let pv = "d2d4 d7d5 c2c4 d5c4 e2e4 b7b5";
    let san = uci_pv_to_san(START, pv).unwrap();
    assert_eq!(san, "d4 d5 c4 dxc4 e4 b5");
    assert_eq!(split_words(&san).len(), split_words(pv).len());
}

#[test]
fn every_outcome_is_told() {
    let s = |t: &str| t.to_string();
    assert_eq!(pv_report(&PvOutcome::Line(vec![])), ok(""));
    assert_eq!(pv_report(&PvOutcome::Line(vec![s("e4"), s("e5")])), ok("e4 e5"));
    assert_eq!(pv_report(&PvOutcome::BadFen(s("A"))), err("fen parse error: A"));
    assert_eq!(pv_report(&PvOutcome::BadPosition(s("B"))), err("position error: B"));
    assert_eq!(
        pv_report(&PvOutcome::BadMove { uci: s("m"), detail: s("C") }),
        err("uci parse error on m: C")
    );
    assert_eq!(
        pv_report(&PvOutcome::IllegalMove { uci: s("m"), detail: s("D") }),
        err("illegal move m: D")
    );
    assert_eq!(
        pv_report(&PvOutcome::PlayFailed { uci: s("m"), detail: s("E") }),
        err("play error on m: E")
    );
}

#[test]
fn a_conversion_that_worked_is_shown() {
    assert_eq!(
        choose_pv("e2e4", ok("e4")),
        ShownPv { text: "e4".to_string(), failure: None }
    );
}

#[test]
fn a_line_is_never_lost() {
    assert_eq!(
        choose_pv("e2e4", err("why")),
        ShownPv {
            text: "e2e4".to_string(),
            failure: Some("\u{1b}[91mPV UCI->SAN conversion failed: why\u{1b}[0m".to_string()),
        }
    );
    assert_eq!(
        pv_display(START, "e2e4 e2e4"),
        ShownPv {
            text: "e2e4 e2e4".to_string(),
            failure: Some(
                "\u{1b}[91mPV UCI->SAN conversion failed: \
                 illegal move e2e4: IllegalUciMoveError\u{1b}[0m"
                    .to_string()
            ),
        }
    );
}

#[test]
fn no_line_is_not_converted_at_all() {
    assert_eq!(
        pv_display("not a fen", ""),
        ShownPv { text: String::new(), failure: None }
    );
    assert_eq!(
        pv_display(START, "e2e4 c7c5"),
        ShownPv { text: "e4 c5".to_string(), failure: None }
    );
}

#[test]
fn a_longer_line_continues_its_beginning() {
    let first = "e2e4 e7e5";
    let more = "g1f3 b8c6";
    let then = "rnbqkbnr/pppp1ppp/8/4p3/4P3/8/PPPP1PPP/RNBQKBNR w KQkq - 0 2";
    let whole = uci_pv_to_san(START, "e2e4 e7e5 g1f3 b8c6").unwrap();
    let parts = [uci_pv_to_san(START, first).unwrap(), uci_pv_to_san(then, more).unwrap()];
    assert_eq!(whole, parts.join(" "));
    assert_eq!(
        uci_pv_to_san(START, "e2e5 g1f3"),
        uci_pv_to_san(START, "e2e5")
    );
}

use ocdb_client::score::{
    fetch_fen, non_empty, score_submission, submit_notice, submit_score, FenData, FenReply,
    ScoreSubmission, SubmitReply, GET_FEN_URL, SEND_RESULTS_URL,
};
use ocdb_client::uci::{parse_info, InfoLine};

fn text(s: &str) -> String {
    s.to_string()
}

fn some(s: &str) -> Option<String> {
    Some(s.to_string())
}

#[test]
fn an_empty_text_is_none() {
    assert_eq!(non_empty(""), None);
    assert_eq!(non_empty(" "), some(" "));
    assert_eq!(non_empty("0"), some("0"));
}

#[test]
fn positions_and_scores_have_their_addresses() {
    assert_eq!(GET_FEN_URL, "https://openchessdb.org/v2/getfen");
    assert_eq!(SEND_RESULTS_URL, "https://openchessdb.org/v2/sendresults");
}

#[test]
fn a_position_is_taken_as_it_is() {
    let data = || FenData { id: 7, fen: text("8/8/8/8/8/8/8/8 w - - 0 1") };
    assert_eq!(fetch_fen(FenReply::Position(data())), Ok(data()));
}

#[test]
fn each_way_to_get_no_position_is_told() {
    assert_eq!(fetch_fen(FenReply::Failed(text("down"))), Err(text("request failed: down")));
    assert_eq!(
        fetch_fen(FenReply::Unreadable(text("cut"))),
        Err(text("failed to read body: cut"))
    );
    assert_eq!(
        fetch_fen(FenReply::Malformed { error: text("EOF"), body: text("{") }),
        Err(text("bad FEN JSON: EOF — body was: {"))
    );
}

#[test]
fn a_score_holds_what_the_engine_gave() {
    let info = parse_info("info depth 20 score cp -15 nodes 5 nps 6 time 7 pv e2e4");
    assert_eq!(
        score_submission("user", "Engine 1", 42, &info, "e4"),
        ScoreSubmission {
            user_id: text("user"),
            engine: text("Engine 1"),
            fen_id: 42,
            ply: 20,
            score: some("-15"),
            nps: some("6"),
            nodes: some("5"),
            time: some("7"),
            pv: some("e4"),
            mate: None,
        }
    );
}

#[test]
fn a_score_has_no_empty_values() {
    assert_eq!(
        score_submission("", "", 0, &InfoLine::default(), ""),
        ScoreSubmission {
            user_id: String::new(),
            engine: String::new(),
            fen_id: 0,
            ply: 0,
            score: None,
            nps: None,
            nodes: None,
            time: None,
            pv: None,
            mate: None,
        }
    );
    let mate = parse_info("info depth 3 score mate 2");
    assert_eq!(score_submission("", "", 0, &mate, "").mate, some("2"));
}

#[test]
fn every_answer_to_a_score_counts() {
    assert_eq!(
        submit_score(SubmitReply::Success { status: 201, body: some("ok") }),
        Ok((201, text("ok")))
    );
    assert_eq!(submit_score(SubmitReply::Success { status: 200, body: None }), Ok((200, text(""))));
    assert_eq!(
        submit_score(SubmitReply::Status { code: 422, body: some("bad") }),
        Ok((422, text("bad")))
    );
    assert_eq!(submit_score(SubmitReply::Status { code: 500, body: None }), Ok((500, text(""))));
    assert_eq!(submit_score(SubmitReply::Failed(text("down"))), Err(text("down")));
}

#[test]
fn the_user_is_told_of_the_answer() {
    let good = |code: u16| format!("\u{1b}[94mResponse code:\u{1b}[0m {}", code);
    let bad = |code: u16| format!("\u{1b}[91mResponse code:\u{1b}[0m {} — body: why", code);
    for code in [200u16, 201, 299] {
        assert_eq!(submit_notice(&Ok((code, text("why")))), good(code));
    }
    for code in [0u16, 199, 300, 404, 500, 65535] {
        assert_eq!(submit_notice(&Ok((code, text("why")))), bad(code));
    }
    assert_eq!(
        submit_notice(&Err(text("down"))),
        "\u{1b}[91mFailed to send results:\u{1b}[0m down"
    );
}

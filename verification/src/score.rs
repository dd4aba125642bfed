//! The work of the server: positions to analyse, and the scores that are handed in.

use crate::style::{in_colour, labelled, BLUE, RED, RESET};
use crate::text::{decimal, number, opt_text};
use crate::uci::{InfoLine, InfoView};
use vstd::prelude::*;

verus! {

/// The address that hands out positions.
pub const GET_FEN_URL: &'static str = "https://openchessdb.org/v2/getfen";

/// The address that takes scores.
pub const SEND_RESULTS_URL: &'static str = "https://openchessdb.org/v2/sendresults";

/// A position to analyse.
#[derive(Debug, PartialEq, Eq)]
pub struct FenData {
    pub id: u64,
    pub fen: String,
}

/// The model of `FenData`.
pub struct FenView {
    pub id: u64,
    pub fen: Seq<char>,
}

impl View for FenData {
    type V = FenView;

    open spec fn view(&self) -> FenView {
        FenView { id: self.id, fen: self.fen@ }
    }
}

/// What came of a request for a position.
#[derive(Debug, PartialEq, Eq)]
pub enum FenReply {
    /// The server handed out a position.
    Position(FenData),
    /// There was no good answer; the error of the request.
    Failed(String),
    /// The answer could not be read; the error of reading it.
    Unreadable(String),
    /// The answer is not a position; the error of parsing it, and the answer.
    Malformed { error: String, body: String },
}

/// What is wrong with a reply, if it holds no position.
pub open spec fn fen_error(reply: FenReply) -> Seq<char> {
    match reply {
        FenReply::Position(_) => seq![],
        FenReply::Failed(e) => "request failed: "@ + e@,
        FenReply::Unreadable(e) => "failed to read body: "@ + e@,
        FenReply::Malformed { error, body } => "bad FEN JSON: "@ + error@ + " — body was: "@
            + body@,
    }
}

/// Reads the reply to a request for a position.
pub fn fetch_fen(reply: FenReply) -> (r: Result<FenData, String>)
    ensures
        match reply {
            FenReply::Position(data) => r == Ok::<FenData, String>(data),
            _ => r is Err && r->Err_0@ == fen_error(reply),
        },
        match reply {
            FenReply::Position(data) => r is Ok,
            FenReply::Failed(e) => r is Err && r->Err_0@ == "request failed: "@ + e@,
            FenReply::Unreadable(e) => r is Err && r->Err_0@ == "failed to read body: "@ + e@,
            FenReply::Malformed { error, body } => r is Err && r->Err_0@ == "bad FEN JSON: "@
                + error@ + " — body was: "@ + body@,
        },
{
    match reply {
        FenReply::Position(data) => Ok(data),
        FenReply::Failed(e) => {
            let mut out: String = "request failed: ".to_owned();
            out.append(e.as_str());
            Err(out)
        },
        FenReply::Unreadable(e) => {
            let mut out: String = "failed to read body: ".to_owned();
            out.append(e.as_str());
            Err(out)
        },
        FenReply::Malformed { error, body } => {
            let mut out: String = "bad FEN JSON: ".to_owned();
            out.append(error.as_str());
            out.append(" — body was: ");
            out.append(body.as_str());
            Err(out)
        },
    }
}

/// A score that is handed in. A value that the engine did not give is absent.
#[derive(Debug, PartialEq, Eq)]
pub struct ScoreSubmission {
    pub user_id: String,
    pub engine: String,
    pub fen_id: u64,
    pub ply: u32,
    pub score: Option<String>,
    pub nps: Option<String>,
    pub nodes: Option<String>,
    pub time: Option<String>,
    pub pv: Option<String>,
    pub mate: Option<String>,
}

/// The model of a `ScoreSubmission`.
pub struct ScoreView {
    pub user_id: Seq<char>,
    pub engine: Seq<char>,
    pub fen_id: u64,
    pub ply: u32,
    pub score: Option<Seq<char>>,
    pub nps: Option<Seq<char>>,
    pub nodes: Option<Seq<char>>,
    pub time: Option<Seq<char>>,
    pub pv: Option<Seq<char>>,
    pub mate: Option<Seq<char>>,
}

impl View for ScoreSubmission {
    type V = ScoreView;

    open spec fn view(&self) -> ScoreView {
        ScoreView {
            user_id: self.user_id@,
            engine: self.engine@,
            fen_id: self.fen_id,
            ply: self.ply,
            score: opt_text(self.score),
            nps: opt_text(self.nps),
            nodes: opt_text(self.nodes),
            time: opt_text(self.time),
            pv: opt_text(self.pv),
            mate: opt_text(self.mate),
        }
    }
}

/// A text that is absent where it is empty.
pub open spec fn present(s: Seq<char>) -> Option<Seq<char>> {
    if s.len() == 0 {
        None
    } else {
        Some(s)
    }
}

/// Turns an empty text into none.
pub fn non_empty(s: &str) -> (r: Option<String>)
    ensures
        opt_text(r) == present(s@),
        r is None <==> s@.len() == 0,
        r matches Some(t) ==> t@ == s@,
{
    if s.is_empty() {
        None
    } else {
        Some(s.to_owned())
    }
}

/// The score of an analysis.
pub open spec fn score_of(
    user_id: Seq<char>,
    engine: Seq<char>,
    fen_id: u64,
    info: InfoView,
    pv: Seq<char>,
) -> ScoreView {
    ScoreView {
        user_id,
        engine,
        fen_id,
        ply: info.depth,
        score: present(info.score),
        nps: present(info.nps),
        nodes: present(info.nodes),
        time: present(info.time_ms),
        pv: present(pv),
        mate: present(info.mate),
    }
}

/// Makes the score of an analysis, with the PV as it is shown.
pub fn score_submission(user_id: &str, engine: &str, fen_id: u64, info: &InfoLine, pv: &str) -> (r:
    ScoreSubmission)
    ensures
        r@ == score_of(user_id@, engine@, fen_id, info@, pv@),
        r.user_id@ == user_id@,
        r.engine@ == engine@,
        r.fen_id == fen_id,
        r.ply == info.depth,
        r.score is None <==> info.score@.len() == 0,
        r.score is Some ==> r.score->0@ == info.score@,
        r.nps is None <==> info.nps@.len() == 0,
        r.nps is Some ==> r.nps->0@ == info.nps@,
        r.nodes is None <==> info.nodes@.len() == 0,
        r.nodes is Some ==> r.nodes->0@ == info.nodes@,
        r.time is None <==> info.time_ms@.len() == 0,
        r.time is Some ==> r.time->0@ == info.time_ms@,
        r.pv is None <==> pv@.len() == 0,
        r.pv is Some ==> r.pv->0@ == pv@,
        r.mate is None <==> info.mate@.len() == 0,
        r.mate is Some ==> r.mate->0@ == info.mate@,
{
    ScoreSubmission {
        user_id: user_id.to_owned(),
        engine: engine.to_owned(),
        fen_id,
        ply: info.depth,
        score: non_empty(info.score.as_str()),
        nps: non_empty(info.nps.as_str()),
        nodes: non_empty(info.nodes.as_str()),
        time: non_empty(info.time_ms.as_str()),
        pv: non_empty(pv),
        mate: non_empty(info.mate.as_str()),
    }
}

/// A score is handed in for the user, the engine and the position as they are, with the depth
/// that the engine said last. No value of a score is an empty text, and none that the engine
/// gave is lost: each absent value stands for an empty one.
pub proof fn law_score_keeps_values(
    user_id: Seq<char>,
    engine: Seq<char>,
    fen_id: u64,
    info: InfoView,
    pv: Seq<char>,
)
    ensures
        ({
            let s = score_of(user_id, engine, fen_id, info, pv);
            &&& s.user_id == user_id
            &&& s.engine == engine
            &&& s.fen_id == fen_id
            &&& s.ply == info.depth
            &&& kept(info.score, s.score)
            &&& s.score is None <==> info.score.len() == 0
            &&& s.score is Some ==> s.score->0 == info.score
            &&& kept(info.nps, s.nps)
            &&& s.nps is None <==> info.nps.len() == 0
            &&& s.nps is Some ==> s.nps->0 == info.nps
            &&& kept(info.nodes, s.nodes)
            &&& s.nodes is None <==> info.nodes.len() == 0
            &&& s.nodes is Some ==> s.nodes->0 == info.nodes
            &&& kept(info.time_ms, s.time)
            &&& s.time is None <==> info.time_ms.len() == 0
            &&& s.time is Some ==> s.time->0 == info.time_ms
            &&& kept(pv, s.pv)
            &&& s.pv is None <==> pv.len() == 0
            &&& s.pv is Some ==> s.pv->0 == pv
            &&& kept(info.mate, s.mate)
            &&& s.mate is None <==> info.mate.len() == 0
            &&& s.mate is Some ==> s.mate->0 == info.mate
        }),
{
}

/// A value is handed in as it is, or, where it is empty, is absent.
pub open spec fn kept(value: Seq<char>, sent: Option<Seq<char>>) -> bool {
    match sent {
        Some(s) => s == value && s.len() > 0,
        None => value =~= seq![],
    }
}

/// What came of handing in a score. A body that could not be read is absent.
#[derive(Debug, PartialEq, Eq)]
pub enum SubmitReply {
    /// The server took the request.
    Success { status: u16, body: Option<String> },
    /// The server refused with a status.
    Status { code: u16, body: Option<String> },
    /// There was no answer; the error of the request.
    Failed(String),
}

fn or_empty(s: Option<String>) -> (r: String)
    ensures
        r@ == (match s {
            Some(t) => t@,
            None => seq![],
        }),
{
    match s {
        Some(t) => t,
        None => String::new(),
    }
}

/// The status and the body of an answer.
pub open spec fn answer(code: u16, body: Option<String>) -> (u16, Seq<char>) {
    (
        code,
        match body {
            Some(t) => t@,
            None => seq![],
        },
    )
}

/// Reads the reply to a score that was handed in: every answer of the server counts, whatever
/// its status; only a request without an answer is an error.
pub fn submit_score(reply: SubmitReply) -> (r: Result<(u16, String), String>)
    ensures
        match reply {
            SubmitReply::Success { status, body } => r is Ok && (r->Ok_0.0, r->Ok_0.1@) == answer(
                status,
                body,
            ),
            SubmitReply::Status { code, body } => r is Ok && (r->Ok_0.0, r->Ok_0.1@) == answer(
                code,
                body,
            ),
            SubmitReply::Failed(e) => r is Err && r->Err_0@ == e@,
        },
        match reply {
            SubmitReply::Success { status: code, body } | SubmitReply::Status { code, body } => {
                &&& r is Ok
                &&& r->Ok_0.0 == code
                &&& body is Some ==> r->Ok_0.1@ == body->0@
                &&& body is None ==> r->Ok_0.1@.len() == 0
            },
            SubmitReply::Failed(_) => r is Err,
        },
{
    match reply {
        SubmitReply::Success { status, body } => Ok((status, or_empty(body))),
        SubmitReply::Status { code, body } => Ok((code, or_empty(body))),
        SubmitReply::Failed(e) => Err(e),
    }
}

/// What the user is told of a score that was handed in: the status, in blue where it says
/// success and else in red with the body, or the error.
pub open spec fn submit_notice_of(r: Result<(u16, Seq<char>), Seq<char>>) -> Seq<char> {
    match r {
        Ok((status, body)) => if 200 <= status < 300 {
            in_colour(BLUE@, "Response code:"@) + " "@ + decimal(status as nat)
        } else {
            in_colour(RED@, "Response code:"@) + " "@ + (decimal(status as nat) + " — body: "@
                + body)
        },
        Err(e) => in_colour(RED@, "Failed to send results:"@) + " "@ + e,
    }
}

/// Writes what the user is told of a score that was handed in.
pub fn submit_notice(result: &Result<(u16, String), String>) -> (r: String)
    ensures
        r@ == submit_notice_of(
            match *result {
                Ok((status, body)) => Ok((status, body@)),
                Err(e) => Err(e@),
            },
        ),
        match *result {
            Ok((status, body)) => {
                &&& 200 <= status < 300 ==> r@ == BLUE@ + "Response code:"@ + RESET@ + " "@
                    + decimal(status as nat)
                &&& !(200 <= status < 300) ==> r@ == RED@ + "Response code:"@ + RESET@ + " "@ + (
                decimal(status as nat) + " — body: "@ + body@)
            },
            Err(e) => r@ == RED@ + "Failed to send results:"@ + RESET@ + " "@ + e@,
        },
{
    match result {
        Ok((status, body)) => {
            let mut text: String = number(*status as u64);
            if 200 <= *status && *status < 300 {
                labelled(BLUE, "Response code:", text.as_str())
            } else {
                text.append(" — body: ");
                text.append(body.as_str());
                labelled(RED, "Response code:", text.as_str())
            }
        },
        Err(e) => labelled(RED, "Failed to send results:", e.as_str()),
    }
}

/// The models of a position and of a score hold each field as it is.
pub proof fn law_models_leave_nothing_out(position: FenData, score: ScoreSubmission)
    ensures
        position@.id == position.id,
        position@.fen == position.fen@,
        score@.user_id == score.user_id@,
        score@.engine == score.engine@,
        score@.fen_id == score.fen_id,
        score@.ply == score.ply,
        score@.score == opt_text(score.score),
        score@.nps == opt_text(score.nps),
        score@.nodes == opt_text(score.nodes),
        score@.time == opt_text(score.time),
        score@.pv == opt_text(score.pv),
        score@.mate == opt_text(score.mate),
{
}

} // verus!

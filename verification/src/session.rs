//! Session telemetry: which machine is at work, and the heartbeat that keeps its session alive.
//!
//! Telemetry is best effort. No reply of the server, and no lack of one, stops the analysis.
//! The requests themselves are made elsewhere; here stands what to ask, and what a reply means.

use crate::style::{coloured, in_colour, RED, RESET};
use crate::text::{decimal, number, opt_text};
use vstd::prelude::*;

verus! {

/// What the server is told of a machine.
#[derive(Debug, PartialEq, Eq)]
pub struct Snapshot {
    pub os: String,
    pub arch: String,
    pub cpu_tier: String,
    pub logical_cores: usize,
    pub physical_cores: Option<usize>,
    pub ram_total_mb: u64,
}

/// The model of a `Snapshot`.
pub struct SnapshotView {
    pub os: Seq<char>,
    pub arch: Seq<char>,
    pub cpu_tier: Seq<char>,
    pub logical_cores: nat,
    pub physical_cores: Option<nat>,
    pub ram_total_mb: nat,
}

impl View for Snapshot {
    type V = SnapshotView;

    open spec fn view(&self) -> SnapshotView {
        SnapshotView {
            os: self.os@,
            arch: self.arch@,
            cpu_tier: self.cpu_tier@,
            logical_cores: self.logical_cores as nat,
            physical_cores: match self.physical_cores {
                Some(n) => Some(n as nat),
                None => None,
            },
            ram_total_mb: self.ram_total_mb as nat,
        }
    }
}

/// Makes a snapshot of what was read of a machine. The memory is given in bytes and told in
/// whole mebibytes.
pub fn collect_snapshot(
    os: &str,
    arch: &str,
    cpu_tier: &str,
    logical_cores: usize,
    physical_cores: Option<usize>,
    total_memory: u64,
) -> (r: Snapshot)
    ensures
        r@ == (SnapshotView {
            os: os@,
            arch: arch@,
            cpu_tier: cpu_tier@,
            logical_cores: logical_cores as nat,
            physical_cores: match physical_cores {
                Some(n) => Some(n as nat),
                None => None,
            },
            ram_total_mb: total_memory as nat / 1_048_576,
        }),
        r.os@ == os@,
        r.arch@ == arch@,
        r.cpu_tier@ == cpu_tier@,
        r.logical_cores == logical_cores,
        r.physical_cores == physical_cores,
        r.ram_total_mb * 1_048_576 <= total_memory < (r.ram_total_mb + 1) * 1_048_576,
{
    Snapshot {
        os: os.to_owned(),
        arch: arch.to_owned(),
        cpu_tier: cpu_tier.to_owned(),
        logical_cores,
        physical_cores,
        ram_total_mb: total_memory / 1024 / 1024,
    }
}

/// The address that creates a session.
pub const CREATE_SESSION_URL: &'static str = "https://openchessdb.org/v2/create-session";

/// The address that updates a session.
pub const UPDATE_SESSION_URL: &'static str = "https://openchessdb.org/v2/update-session";

/// The query of an update: the session and the snapshot, by their names in the request. The
/// physical cores are left out where they are not known.
pub open spec fn query_of(session_id: Seq<char>, s: SnapshotView) -> Seq<(Seq<char>, Seq<char>)> {
    seq![
        ("session_id"@, session_id),
        ("os"@, s.os),
        ("arch"@, s.arch),
        ("cpu_tier"@, s.cpu_tier),
        ("logical_cores"@, decimal(s.logical_cores)),
        ("ram_total_mb"@, decimal(s.ram_total_mb)),
    ] + (match s.physical_cores {
        Some(n) => seq![("physical_cores"@, decimal(n))],
        None => seq![],
    })
}

/// The texts of a query.
pub open spec fn query_text(q: Seq<(&'static str, String)>) -> Seq<(Seq<char>, Seq<char>)> {
    q.map_values(|p: (&'static str, String)| (p.0@, p.1@))
}

/// Writes the query of an update.
pub fn update_query(session_id: &str, snapshot: &Snapshot) -> (r: Vec<(&'static str, String)>)
    ensures
        query_text(r@) == query_of(session_id@, snapshot@),
        r@.len() == (if snapshot.physical_cores is Some {
            7int
        } else {
            6
        }),
        r@[0].0@ == "session_id"@ && r@[0].1@ == session_id@,
        r@[1].0@ == "os"@ && r@[1].1@ == snapshot.os@,
        r@[2].0@ == "arch"@ && r@[2].1@ == snapshot.arch@,
        r@[3].0@ == "cpu_tier"@ && r@[3].1@ == snapshot.cpu_tier@,
        r@[4].0@ == "logical_cores"@ && r@[4].1@ == decimal(snapshot.logical_cores as nat),
        r@[5].0@ == "ram_total_mb"@ && r@[5].1@ == decimal(snapshot.ram_total_mb as nat),
        snapshot.physical_cores is Some ==> r@[6].0@ == "physical_cores"@ && r@[6].1@ == decimal(
            snapshot.physical_cores->0 as nat,
        ),
{
    let mut q: Vec<(&'static str, String)> = Vec::new();
    q.push(("session_id", session_id.to_owned()));
    q.push(("os", snapshot.os.clone()));
    q.push(("arch", snapshot.arch.clone()));
    q.push(("cpu_tier", snapshot.cpu_tier.clone()));
    q.push(("logical_cores", number(snapshot.logical_cores as u64)));
    q.push(("ram_total_mb", number(snapshot.ram_total_mb)));
    if let Some(n) = snapshot.physical_cores {
        q.push(("physical_cores", number(n as u64)));
    }
    assert(query_text(q@) =~= query_of(session_id@, snapshot@));
    q
}

/// What came of a request to create a session.
#[derive(Debug, PartialEq, Eq)]
pub enum CreateReply {
    /// The server created a session.
    Created { session_id: String },
    /// The server answered something else; the error of reading it.
    BadResponse(String),
    /// There was no good answer; the error of the request.
    Failed(String),
}

/// A session, where there is one, and what to report.
#[derive(Debug, PartialEq, Eq)]
pub struct Created {
    pub session_id: Option<String>,
    pub notice: Option<String>,
}

fn notice(what: &str, error: &str) -> (r: String)
    ensures
        r@ == in_colour(RED@, what@ + error@),
{
    let mut message: String = what.to_owned();
    message.append(error);
    coloured(RED, message.as_str())
}

/// Reads the reply to a request to create a session. Only a session that the server created is
/// one; what went wrong otherwise is reported.
pub fn create_session(reply: CreateReply) -> (r: Created)
    ensures
        match reply {
            CreateReply::Created { session_id } => opt_text(r.session_id) == Some(session_id@)
                && r.notice is None,
            CreateReply::BadResponse(e) => r.session_id is None && opt_text(r.notice) == Some(
                in_colour(RED@, "create-session: bad response: "@ + e@),
            ),
            CreateReply::Failed(e) => r.session_id is None && opt_text(r.notice) == Some(
                in_colour(RED@, "create-session failed: "@ + e@),
            ),
        },
{
    match reply {
        CreateReply::Created { session_id } => Created {
            session_id: Some(session_id),
            notice: None,
        },
        CreateReply::BadResponse(e) => Created {
            session_id: None,
            notice: Some(notice("create-session: bad response: ", e.as_str())),
        },
        CreateReply::Failed(e) => Created {
            session_id: None,
            notice: Some(notice("create-session failed: ", e.as_str())),
        },
    }
}

/// What came of a request to update a session.
#[derive(Debug, PartialEq, Eq)]
pub enum UpdateReply {
    /// The server took the update.
    Accepted,
    /// The server refused with a status; the error of the request.
    Status { code: u16, error: String },
    /// There was no answer; the error of the request.
    Failed(String),
}

/// What a heartbeat came to.
#[derive(Clone, Copy, Debug, PartialEq, Eq)]
pub enum HeartbeatResult {
    /// The session lives.
    Alive,
    /// The server no longer knows the session.
    SessionGone,
    /// Something else went wrong.
    OtherError,
}

/// The result of a heartbeat, and what to report.
#[derive(Debug, PartialEq, Eq)]
pub struct Updated {
    pub result: HeartbeatResult,
    pub notice: Option<String>,
}

/// What a reply to an update means for the session: status 404, and nothing else, says that it
/// is gone.
pub open spec fn heartbeat_result(reply: UpdateReply) -> HeartbeatResult {
    match reply {
        UpdateReply::Accepted => HeartbeatResult::Alive,
        UpdateReply::Status { code, error } => if code == 404 {
            HeartbeatResult::SessionGone
        } else {
            HeartbeatResult::OtherError
        },
        UpdateReply::Failed(_) => HeartbeatResult::OtherError,
    }
}

/// The error that a reply to an update carries.
pub open spec fn update_error(reply: UpdateReply) -> Seq<char> {
    match reply {
        UpdateReply::Accepted => seq![],
        UpdateReply::Status { code, error } => error@,
        UpdateReply::Failed(error) => error@,
    }
}

/// Reads the reply to an update. An error is reported, unless it says that the session is gone.
pub fn update_session(reply: UpdateReply) -> (r: Updated)
    ensures
        r.result == heartbeat_result(reply),
        opt_text(r.notice) == (match heartbeat_result(reply) {
            HeartbeatResult::OtherError => Some(
                in_colour(RED@, "update-session (heartbeat) failed: "@ + update_error(reply)),
            ),
            _ => None,
        }),
        match reply {
            UpdateReply::Accepted => r.result is Alive && r.notice is None,
            UpdateReply::Status { code, error } => {
                &&& code == 404 ==> r.result is SessionGone && r.notice is None
                &&& code != 404 ==> r.result is OtherError && opt_text(r.notice) == Some(
                    RED@ + ("update-session (heartbeat) failed: "@ + error@) + RESET@,
                )
            },
            UpdateReply::Failed(error) => r.result is OtherError && opt_text(r.notice) == Some(
                RED@ + ("update-session (heartbeat) failed: "@ + error@) + RESET@,
            ),
        },
{
    match reply {
        UpdateReply::Accepted => Updated { result: HeartbeatResult::Alive, notice: None },
        UpdateReply::Status { code, error } => if code == 404 {
            Updated { result: HeartbeatResult::SessionGone, notice: None }
        } else {
            Updated {
                result: HeartbeatResult::OtherError,
                notice: Some(notice("update-session (heartbeat) failed: ", error.as_str())),
            }
        },
        UpdateReply::Failed(error) => Updated {
            result: HeartbeatResult::OtherError,
            notice: Some(notice("update-session (heartbeat) failed: ", error.as_str())),
        },
    }
}

/// Where a heartbeat stands: the request to make next, or the session that it leaves.
#[derive(Debug, PartialEq, Eq)]
pub enum Heartbeat {
    /// There is no session yet: create one.
    Create,
    /// Update the session.
    Update { session_id: String },
    /// The session is gone: create another one.
    Recreate,
    /// Report the machine to the session that was just created.
    Report { session_id: String },
    /// Nothing more to do until the next heartbeat.
    Done { session: Option<String> },
}

/// What came of the request of a heartbeat.
#[derive(Debug, PartialEq, Eq)]
pub enum Reply {
    /// A session was to be created.
    Created(Option<String>),
    /// A session was to be updated.
    Updated(HeartbeatResult),
}

/// The model of a `Heartbeat`.
pub enum HeartbeatView {
    Create,
    Update(Seq<char>),
    Recreate,
    Report(Seq<char>),
    Done(Option<Seq<char>>),
}

impl View for Heartbeat {
    type V = HeartbeatView;

    open spec fn view(&self) -> HeartbeatView {
        match *self {
            Heartbeat::Create => HeartbeatView::Create,
            Heartbeat::Update { session_id } => HeartbeatView::Update(session_id@),
            Heartbeat::Recreate => HeartbeatView::Recreate,
            Heartbeat::Report { session_id } => HeartbeatView::Report(session_id@),
            Heartbeat::Done { session } => HeartbeatView::Done(opt_text(session)),
        }
    }
}

/// The model of a `Reply`.
pub enum ReplyView {
    Created(Option<Seq<char>>),
    Updated(HeartbeatResult),
}

impl View for Reply {
    type V = ReplyView;

    open spec fn view(&self) -> ReplyView {
        match *self {
            Reply::Created(session_id) => ReplyView::Created(opt_text(session_id)),
            Reply::Updated(result) => ReplyView::Updated(result),
        }
    }
}

/// The reply answers the request that the heartbeat makes.
pub open spec fn answers(reply: ReplyView, h: HeartbeatView) -> bool {
    match h {
        HeartbeatView::Create | HeartbeatView::Recreate => reply is Created,
        HeartbeatView::Update(_) | HeartbeatView::Report(_) => reply is Updated,
        HeartbeatView::Done(_) => false,
    }
}

/// The first request of a heartbeat.
pub open spec fn beat(session: Option<Seq<char>>) -> HeartbeatView {
    match session {
        Some(session_id) => HeartbeatView::Update(session_id),
        None => HeartbeatView::Create,
    }
}

/// Where a heartbeat stands after a reply.
pub open spec fn beat_on(h: HeartbeatView, reply: ReplyView) -> HeartbeatView {
    match (h, reply) {
        (HeartbeatView::Create, ReplyView::Created(session)) => HeartbeatView::Done(session),
        (HeartbeatView::Update(session_id), ReplyView::Updated(result)) => match result {
            HeartbeatResult::SessionGone => HeartbeatView::Recreate,
            _ => HeartbeatView::Done(Some(session_id)),
        },
        (HeartbeatView::Recreate, ReplyView::Created(session)) => match session {
            Some(session_id) => HeartbeatView::Report(session_id),
            None => HeartbeatView::Done(None),
        },
        (HeartbeatView::Report(session_id), _) => HeartbeatView::Done(Some(session_id)),
        _ => h,
    }
}

impl Heartbeat {
    /// Starts a heartbeat of a session, or of none.
    pub fn start(session_id: Option<String>) -> (r: Heartbeat)
        ensures
            r@ == beat(opt_text(session_id)),
    {
        match session_id {
            Some(session_id) => Heartbeat::Update { session_id },
            None => Heartbeat::Create,
        }
    }

    /// Goes on with the reply to the request that the heartbeat makes.
    pub fn on_reply(self, reply: Reply) -> (r: Heartbeat)
        requires
            answers(reply@, self@),
        ensures
            r@ == beat_on(self@, reply@),
    {
        match (self, reply) {
            (Heartbeat::Create, Reply::Created(session)) => Heartbeat::Done { session },
            (Heartbeat::Update { session_id }, Reply::Updated(result)) => match result {
                HeartbeatResult::SessionGone => Heartbeat::Recreate,
                _ => Heartbeat::Done { session: Some(session_id) },
            },
            (Heartbeat::Recreate, Reply::Created(session)) => match session {
                Some(session_id) => Heartbeat::Report { session_id },
                None => Heartbeat::Done { session: None },
            },
            (Heartbeat::Report { session_id }, _) => Heartbeat::Done {
                session: Some(session_id),
            },
            (h, _) => h,
        }
    }
}

/// What the user is told of the session at the start.
pub open spec fn session_notice_of(session: Option<Seq<char>>) -> Seq<char> {
    match session {
        Some(session_id) => "🔑 Session: "@ + session_id,
        None => "⚠️  Session telemetry unavailable — continuing without it"@,
    }
}

/// Writes what the user is told of the session at the start.
pub fn session_notice(session: &Option<String>) -> (r: String)
    ensures
        r@ == session_notice_of(opt_text(*session)),
        match *session {
            Some(session_id) => r@ == "🔑 Session: "@ + session_id@,
            None => r@ == "⚠️  Session telemetry unavailable — continuing without it"@,
        },
{
    match session {
        Some(session_id) => {
            let mut out: String = "🔑 Session: ".to_owned();
            out.append(session_id.as_str());
            out
        },
        None => "⚠️  Session telemetry unavailable — continuing without it".to_owned(),
    }
}

/// What the user is told when a session is gone.
pub fn session_gone_notice() -> (r: String)
    ensures
        r@ == in_colour(RED@, "Session expired — creating a new one"@),
{
    coloured(RED, "Session expired — creating a new one")
}

/// Where a heartbeat stands after a sequence of replies.
pub open spec fn beat_through(h: HeartbeatView, replies: Seq<ReplyView>) -> HeartbeatView
    decreases replies.len(),
{
    if replies.len() == 0 {
        h
    } else {
        beat_through(beat_on(h, replies[0]), replies.drop_first())
    }
}

/// Each reply answers the request that the heartbeat makes when it comes.
pub open spec fn answer_in_turn(h: HeartbeatView, replies: Seq<ReplyView>) -> bool
    decreases replies.len(),
{
    replies.len() == 0 || (answers(replies[0], h) && answer_in_turn(
        beat_on(h, replies[0]),
        replies.drop_first(),
    ))
}

/// The number of requests among `replies` that were to create a session.
pub open spec fn creations(replies: Seq<ReplyView>) -> nat
    decreases replies.len(),
{
    if replies.len() == 0 {
        0
    } else {
        (if replies[0] is Created {
            1nat
        } else {
            0
        }) + creations(replies.drop_first())
    }
}

/// A heartbeat without a session takes one request, which creates one, and leaves what came of
/// it.
pub proof fn law_heartbeat_without_session(created: Option<Seq<char>>)
    ensures
        beat(None) == HeartbeatView::Create,
        beat_on(beat(None), ReplyView::Created(created)) == HeartbeatView::Done(created),
{
}

/// A heartbeat of a session takes no request but the update and keeps the session, unless the
/// server says that the session is gone: errors in between change nothing.
pub proof fn law_heartbeat_keeps_session(session_id: Seq<char>, result: HeartbeatResult)
    requires
        result != HeartbeatResult::SessionGone,
    ensures
        beat(Some(session_id)) == HeartbeatView::Update(session_id),
        beat_on(beat(Some(session_id)), ReplyView::Updated(result)) == HeartbeatView::Done(
            Some(session_id),
        ),
{
}

/// A session that is gone is replaced by the one that the server creates, whatever comes of the
/// first report to it; where the server creates none, there is no session.
pub proof fn law_heartbeat_heals(
    session_id: Seq<char>,
    created: Option<Seq<char>>,
    reported: HeartbeatResult,
)
    ensures
        ({
            let gone = beat_on(
                beat(Some(session_id)),
                ReplyView::Updated(HeartbeatResult::SessionGone),
            );
            let then = beat_on(gone, ReplyView::Created(created));
            &&& gone == HeartbeatView::Recreate
            &&& created is None ==> then == HeartbeatView::Done(None)
            &&& created matches Some(new_id) ==> {
                &&& then == HeartbeatView::Report(new_id)
                &&& beat_on(then, ReplyView::Updated(reported)) == HeartbeatView::Done(
                    Some(new_id),
                )
            }
        }),
{
}

/// The requests that a heartbeat can still make.
pub open spec fn requests_left(h: HeartbeatView) -> nat {
    match h {
        HeartbeatView::Create => 1,
        HeartbeatView::Update(_) => 3,
        HeartbeatView::Recreate => 2,
        HeartbeatView::Report(_) => 1,
        HeartbeatView::Done(_) => 0,
    }
}

/// The requests to create a session that a heartbeat can still make.
pub open spec fn creations_left(h: HeartbeatView) -> nat {
    match h {
        HeartbeatView::Create | HeartbeatView::Update(_) | HeartbeatView::Recreate => 1,
        HeartbeatView::Report(_) | HeartbeatView::Done(_) => 0,
    }
}

proof fn lemma_requests_left(h: HeartbeatView, replies: Seq<ReplyView>)
    requires
        answer_in_turn(h, replies),
    ensures
        replies.len() <= requests_left(h),
        creations(replies) <= creations_left(h),
        replies.len() == requests_left(h) ==> beat_through(h, replies) is Done,
    decreases replies.len(),
{
    if replies.len() > 0 {
        lemma_requests_left(beat_on(h, replies[0]), replies.drop_first());
    }
}

/// A heartbeat comes to an end after at most three requests, of which at most one creates a
/// session.
pub proof fn law_heartbeat_is_bounded(session: Option<Seq<char>>, replies: Seq<ReplyView>)
    requires
        answer_in_turn(beat(session), replies),
    ensures
        replies.len() <= 3,
        creations(replies) <= 1,
        replies.len() == 3 ==> beat_through(beat(session), replies) is Done,
{
    lemma_requests_left(beat(session), replies);
}

/// A heartbeat of a session that makes more than its update was told that the session is gone.
pub proof fn law_extra_requests_only_when_gone(session_id: Seq<char>, replies: Seq<ReplyView>)
    requires
        answer_in_turn(beat(Some(session_id)), replies),
        replies.len() > 1,
    ensures
        replies[0] == ReplyView::Updated(HeartbeatResult::SessionGone),
        replies[1] is Created,
        creations(replies) == 1,
{
    let h = beat(Some(session_id));
    let rest = replies.drop_first();
    assert(answer_in_turn(beat_on(h, replies[0]), rest));
    assert(rest[0] == replies[1]);
    assert(answers(rest[0], beat_on(h, replies[0])));
    assert(creations(rest) == 1 + creations(rest.drop_first()));
    lemma_requests_left(h, replies);
}

/// Only status 404 says that a session is gone; every other reply that is no success is an error.
pub proof fn law_gone_is_not_found(reply: UpdateReply)
    ensures
        heartbeat_result(reply) is Alive <==> reply is Accepted,
        heartbeat_result(reply) is SessionGone <==> reply is Status && reply->code == 404,
{
}

/// An update tells the server the session and all of the snapshot, each under its name.
pub proof fn law_query_tells_the_snapshot(session_id: Seq<char>, s: SnapshotView)
    ensures
        ({
            let q = query_of(session_id, s);
            &&& q.len() == (if s.physical_cores is Some {
                7int
            } else {
                6
            })
            &&& q[0] == ("session_id"@, session_id)
            &&& q[1] == ("os"@, s.os)
            &&& q[2] == ("arch"@, s.arch)
            &&& q[3] == ("cpu_tier"@, s.cpu_tier)
            &&& q[4] == ("logical_cores"@, decimal(s.logical_cores))
            &&& q[5] == ("ram_total_mb"@, decimal(s.ram_total_mb))
            &&& s.physical_cores is Some ==> q[6] == (
                "physical_cores"@,
                decimal(s.physical_cores->0),
            )
        }),
{
}

/// The models of a snapshot, a heartbeat and a reply hold what these hold.
pub proof fn law_models_leave_nothing_out(
    s: Snapshot,
    session: Option<String>,
    id: String,
    result: HeartbeatResult,
)
    ensures
        s@.os == s.os@,
        s@.arch == s.arch@,
        s@.cpu_tier == s.cpu_tier@,
        s@.logical_cores == s.logical_cores,
        s@.physical_cores is Some <==> s.physical_cores is Some,
        s.physical_cores is Some ==> s@.physical_cores->0 == s.physical_cores->0,
        s@.ram_total_mb == s.ram_total_mb,
        Heartbeat::Create@ == HeartbeatView::Create,
        Heartbeat::Recreate@ == HeartbeatView::Recreate,
        (Heartbeat::Update { session_id: id })@ == HeartbeatView::Update(id@),
        (Heartbeat::Report { session_id: id })@ == HeartbeatView::Report(id@),
        (Heartbeat::Done { session })@ == HeartbeatView::Done(opt_text(session)),
        Reply::Created(session)@ == ReplyView::Created(opt_text(session)),
        Reply::Updated(result)@ == ReplyView::Updated(result),
{
}

} // verus!

//! The course of the work: from the greeting of the engine on to one position after another.
//!
//! A worker is told of one event at a time and answers with the actions to take, in order. It
//! reads no engine and asks no server itself.

use crate::pv::{display_failure, displayed, pv_display, ShownPv};
use crate::report::{report, report_of};
use crate::score::{score_of, score_submission, FenData, FenView, ScoreSubmission, ScoreView};
use crate::style::{coloured, in_colour, labelled, CYAN, GREEN, RED, RESET};
use crate::text::{copies, decimal, mentions, opt_text, push_copies, texts, trimmed};
use crate::uci::{
    analysed, analysis_of, info_of, is_best_move, is_ready, is_uci_ok, named, no_analysis, progress,
    search_commands, search_of, settings, settings_of, settings_view, Analysis, AnalysisView,
    Handshake, InfoLine, InfoView, LineEffect, Prefs, PrefsView, Setting,
};
use vstd::prelude::*;

verus! {

/// What an analysis comes to.
#[derive(Debug, PartialEq, Eq)]
pub struct Conclusion {
    /// What to report where the PV could not be converted.
    pub failure: Option<String>,
    /// The lines to show.
    pub report: Vec<String>,
    /// The score to hand in.
    pub submission: ScoreSubmission,
}

/// Concludes an analysis, given the PV to show.
pub fn conclude_with(
    prefs: &Prefs,
    engine_name: &str,
    position: &FenData,
    info: &InfoLine,
    pv: ShownPv,
) -> (r: Conclusion)
    ensures
        opt_text(r.failure) == opt_text(pv.failure),
        texts(r.report@) == report_of(info@, pv.text@),
        r.submission@ == score_of(prefs@.user_id, engine_name@, position@.id, info@, pv.text@),
{
    Conclusion {
        report: report(info, pv.text.as_str()),
        submission: score_submission(
            prefs.user_id.as_str(),
            engine_name,
            position.id,
            info,
            pv.text.as_str(),
        ),
        failure: pv.failure,
    }
}

/// Concludes an analysis with what the engine said last.
pub fn conclude(prefs: &Prefs, engine_name: &str, position: &FenData, info: &InfoLine) -> (r:
    Conclusion)
    ensures
        opt_text(r.failure) == display_failure(position@.fen, info@.pv),
        texts(r.report@) == report_of(info@, displayed(position@.fen, info@.pv)),
        r.submission@ == score_of(
            prefs@.user_id,
            engine_name@,
            position@.id,
            info@,
            displayed(position@.fen, info@.pv),
        ),
{
    let pv: ShownPv = pv_display(position.fen.as_str(), info.pv.as_str());
    conclude_with(prefs, engine_name, position, info, pv)
}

/// Where the work stands.
#[derive(Debug, PartialEq, Eq)]
pub enum Worker {
    /// The engine says who it is.
    Greeting { handshake: Handshake },
    /// The engine takes its settings.
    Syncing { engine_name: String },
    /// The server is asked for a position.
    Fetching { engine_name: String },
    /// The engine analyses a position.
    Analysing { engine_name: String, position: FenData, analysis: Analysis },
}

/// The model of a `Worker`.
pub enum WorkerView {
    Greeting(Seq<char>),
    Syncing(Seq<char>),
    Fetching(Seq<char>),
    Analysing(Seq<char>, FenView, AnalysisView),
}

impl View for Worker {
    type V = WorkerView;

    open spec fn view(&self) -> WorkerView {
        match *self {
            Worker::Greeting { handshake } => WorkerView::Greeting(handshake.engine_name@),
            Worker::Syncing { engine_name } => WorkerView::Syncing(engine_name@),
            Worker::Fetching { engine_name } => WorkerView::Fetching(engine_name@),
            Worker::Analysing { engine_name, position, analysis } => WorkerView::Analysing(
                engine_name@,
                position@,
                analysis@,
            ),
        }
    }
}

/// What a worker is told.
#[derive(Debug, PartialEq, Eq)]
pub enum Event {
    /// A line of the engine.
    Line(String),
    /// A line of the engine that cannot be read.
    Unreadable,
    /// The engine says no more.
    Closed,
    /// What came of asking the server for a position.
    Fetched(Result<FenData, String>),
}

/// The model of an `Event`.
pub enum EventView {
    Line(Seq<char>),
    Unreadable,
    Closed,
    Fetched(Result<FenView, Seq<char>>),
}

impl View for Event {
    type V = EventView;

    open spec fn view(&self) -> EventView {
        match *self {
            Event::Line(line) => EventView::Line(line@),
            Event::Unreadable => EventView::Unreadable,
            Event::Closed => EventView::Closed,
            Event::Fetched(Ok(data)) => EventView::Fetched(Ok(data@)),
            Event::Fetched(Err(e)) => EventView::Fetched(Err(e@)),
        }
    }
}

/// What a worker has done.
#[derive(Debug, PartialEq, Eq)]
pub enum Action {
    /// Write to the engine.
    Send(String),
    /// Write a line to the user.
    Tell(String),
    /// Write a line of warning to the user.
    Warn(String),
    /// Ask the server for a position.
    Fetch,
    /// Wait before the next request.
    Pause,
    /// Start the clock and the spinner.
    StartClock,
    /// Show how deep the search is, of the depth to search to.
    ShowDepth(u32),
    /// Stop the clock and the spinner.
    StopClock,
    /// Hand in a score, and tell the user what came of it.
    Submit(ScoreSubmission),
    /// Make a heartbeat of the session.
    Beat,
    /// Tell the user the time between start and stop of the clock.
    TellTime,
}

/// The model of an `Action`.
pub enum ActionView {
    Send(Seq<char>),
    Tell(Seq<char>),
    Warn(Seq<char>),
    Fetch,
    Pause,
    StartClock,
    ShowDepth(u32),
    StopClock,
    Submit(ScoreView),
    Beat,
    TellTime,
}

impl View for Action {
    type V = ActionView;

    open spec fn view(&self) -> ActionView {
        match *self {
            Action::Send(s) => ActionView::Send(s@),
            Action::Tell(s) => ActionView::Tell(s@),
            Action::Warn(s) => ActionView::Warn(s@),
            Action::Fetch => ActionView::Fetch,
            Action::Pause => ActionView::Pause,
            Action::StartClock => ActionView::StartClock,
            Action::ShowDepth(d) => ActionView::ShowDepth(d),
            Action::StopClock => ActionView::StopClock,
            Action::Submit(s) => ActionView::Submit(s@),
            Action::Beat => ActionView::Beat,
            Action::TellTime => ActionView::TellTime,
        }
    }
}

/// The model of a sequence of actions.
pub open spec fn actions_view(v: Seq<Action>) -> Seq<ActionView> {
    v.map_values(|a: Action| a@)
}

/// Settings are sent one by one, each followed by its notice.
pub open spec fn setting_actions(fs: Seq<(Seq<char>, Seq<char>)>) -> Seq<ActionView>
    decreases fs.len(),
{
    if fs.len() == 0 {
        seq![]
    } else {
        setting_actions(fs.drop_last()).push(ActionView::Send(fs.last().0)).push(
            ActionView::Tell(fs.last().1),
        )
    }
}

/// After the greeting: the settings, then the question whether the engine is ready.
pub open spec fn after_greeting(p: PrefsView) -> Seq<ActionView> {
    setting_actions(settings_of(p.threads, p.syzygy)).push(ActionView::Send("isready\n"@))
}

/// A position is asked for.
pub open spec fn fetch_actions() -> Seq<ActionView> {
    seq![ActionView::Warn(in_colour(CYAN@, "Requesting FEN..."@)), ActionView::Fetch]
}

/// A position was not handed out: it is asked for again after a pause.
pub open spec fn retry_actions(e: Seq<char>) -> Seq<ActionView> {
    seq![
        ActionView::Warn(in_colour(RED@, "Failed to fetch FEN: "@ + e)),
        ActionView::Pause,
    ] + fetch_actions()
}

/// A position was handed out: the user sees it, and the engine analyses it.
pub open spec fn search_actions(p: PrefsView, position: FenView) -> Seq<ActionView> {
    seq![
        ActionView::Tell(copies('▔', 80)),
        ActionView::Tell("\n"@ + (in_colour(CYAN@, "FEN:"@) + " "@ + position.fen)),
        ActionView::Send(search_of(position.fen, p.depth)[0]),
        ActionView::Send(search_of(position.fen, p.depth)[1]),
        ActionView::Send(search_of(position.fen, p.depth)[2]),
        ActionView::Tell(in_colour(GREEN@, "Start Analysis..."@)),
        ActionView::StartClock,
    ]
}

/// A deeper search is shown.
pub open spec fn progress_actions(depth: Option<u32>) -> Seq<ActionView> {
    match depth {
        Some(d) => seq![ActionView::ShowDepth(d)],
        None => seq![],
    }
}

/// The engine has finished: the clock stops, the results are shown and handed in, the session
/// is kept alive, and the next position is asked for.
pub open spec fn finish_actions(
    depth: u32,
    failure: Option<Seq<char>>,
    lines: Seq<Seq<char>>,
    score: ScoreView,
) -> Seq<ActionView> {
    seq![
        ActionView::StopClock,
        ActionView::ShowDepth(depth),
        ActionView::Tell("\n"@),
    ] + (match failure {
        Some(message) => seq![ActionView::Warn(message)],
        None => seq![],
    }) + told(lines) + seq![
        ActionView::Submit(score),
        ActionView::Beat,
        ActionView::TellTime,
    ] + fetch_actions()
}

/// The actions at the end of an analysis, with what the engine said last.
pub open spec fn conclusion_actions(
    p: PrefsView,
    engine_name: Seq<char>,
    position: FenView,
    info: InfoView,
) -> Seq<ActionView> {
    let pv = displayed(position.fen, info.pv);
    finish_actions(
        p.depth,
        display_failure(position.fen, info.pv),
        report_of(info, pv),
        score_of(p.user_id, engine_name, position.id, info, pv),
    )
}

/// Lines for the user.
pub open spec fn told(lines: Seq<Seq<char>>) -> Seq<ActionView> {
    lines.map_values(|line: Seq<char>| ActionView::Tell(line))
}

/// The event is one that a worker waits for where it stands: an answer of the server while a
/// position is asked for, and else something of the engine.
pub open spec fn awaited(w: WorkerView, e: EventView) -> bool {
    w is Fetching <==> e is Fetched
}

/// The next state of a worker, and the actions to take.
pub open spec fn next_step(p: PrefsView, w: WorkerView, e: EventView) -> (
    WorkerView,
    Seq<ActionView>,
) {
    match w {
        WorkerView::Greeting(name) => match e {
            EventView::Line(line) => if is_uci_ok(line) {
                (WorkerView::Syncing(named(name, line)), after_greeting(p))
            } else {
                (WorkerView::Greeting(named(name, line)), seq![])
            },
            EventView::Closed => (WorkerView::Syncing(name), after_greeting(p)),
            _ => (w, seq![]),
        },
        WorkerView::Syncing(name) => match e {
            EventView::Line(line) => if trimmed(line) == "readyok"@ {
                (WorkerView::Fetching(name), fetch_actions())
            } else {
                (w, seq![])
            },
            EventView::Closed => (WorkerView::Fetching(name), fetch_actions()),
            _ => (w, seq![]),
        },
        WorkerView::Fetching(name) => match e {
            EventView::Fetched(Ok(position)) => (
                WorkerView::Analysing(name, position, no_analysis()),
                search_actions(p, position),
            ),
            EventView::Fetched(Err(error)) => (w, retry_actions(error)),
            _ => (w, seq![]),
        },
        WorkerView::Analysing(name, position, analysis) => match e {
            EventView::Line(line) => {
                let then = analysed(analysis, line);
                let shown = progress_actions(progress(analysis, line));
                if is_best_move(line) {
                    (
                        WorkerView::Fetching(name),
                        shown + conclusion_actions(p, name, position, then.info),
                    )
                } else {
                    (WorkerView::Analysing(name, position, then), shown)
                }
            },
            _ => (WorkerView::Fetching(name), fetch_actions()),
        },
    }
}

fn make_after_greeting(prefs: &Prefs) -> (r: Vec<Action>)
    ensures
        actions_view(r@) == after_greeting(prefs@),
{
    let list: Vec<Setting> = settings(prefs);
    let ghost model = settings_view(list@);
    let mut out: Vec<Action> = Vec::new();
    let mut i: usize = 0;
    assert(model.take(0) =~= seq![]);
    assert(actions_view(out@) =~= setting_actions(model.take(0)));
    while i < list.len()
        invariant
            i <= list@.len(),
            model == settings_view(list@),
            actions_view(out@) == setting_actions(model.take(i as int)),
        decreases list@.len() - i,
    {
        let ghost before = actions_view(out@);
        assert(model.take(i + 1).drop_last() =~= model.take(i as int));
        out.push(Action::Send(list[i].command.clone()));
        out.push(Action::Tell(list[i].notice.clone()));
        assert(actions_view(out@) =~= before.push(ActionView::Send(list@[i as int].command@)).push(
            ActionView::Tell(list@[i as int].notice@),
        ));
        i += 1;
    }
    assert(model.take(i as int) =~= model);
    let ghost before = actions_view(out@);
    out.push(Action::Send("isready\n".to_owned()));
    assert(actions_view(out@) =~= before.push(ActionView::Send("isready\n"@)));
    out
}

fn push_fetch(out: &mut Vec<Action>)
    ensures
        actions_view(final(out)@) == actions_view(old(out)@) + fetch_actions(),
{
    out.push(Action::Warn(coloured(CYAN, "Requesting FEN...")));
    out.push(Action::Fetch);
    assert(actions_view(out@) =~= actions_view(old(out)@) + fetch_actions());
}

fn make_fetch() -> (r: Vec<Action>)
    ensures
        actions_view(r@) == fetch_actions(),
{
    let mut out: Vec<Action> = Vec::new();
    push_fetch(&mut out);
    out
}

fn make_retry(error: &str) -> (r: Vec<Action>)
    ensures
        actions_view(r@) == retry_actions(error@),
{
    let mut message: String = "Failed to fetch FEN: ".to_owned();
    message.append(error);
    let mut out: Vec<Action> = Vec::new();
    out.push(Action::Warn(coloured(RED, message.as_str())));
    out.push(Action::Pause);
    push_fetch(&mut out);
    assert(actions_view(out@) =~= retry_actions(error@));
    out
}

fn make_search(prefs: &Prefs, position: &FenData) -> (r: Vec<Action>)
    ensures
        actions_view(r@) == search_actions(prefs@, position@),
{
    let mut rule: String = String::new();
    push_copies(&mut rule, '▔', 80);
    assert(rule@ =~= copies('▔', 80));
    let mut heading: String = "\n".to_owned();
    heading.append(labelled(CYAN, "FEN:", position.fen.as_str()).as_str());
    let commands: Vec<String> = search_commands(position.fen.as_str(), prefs.depth);
    assert(texts(commands@).len() == 3);
    assert(forall|i: int| 0 <= i < 3 ==> texts(commands@)[i] == (#[trigger] commands@[i])@);
    let mut out: Vec<Action> = Vec::new();
    out.push(Action::Tell(rule));
    out.push(Action::Tell(heading));
    out.push(Action::Send(commands[0].clone()));
    out.push(Action::Send(commands[1].clone()));
    out.push(Action::Send(commands[2].clone()));
    out.push(Action::Tell(coloured(GREEN, "Start Analysis...")));
    out.push(Action::StartClock);
    assert(actions_view(out@) =~= search_actions(prefs@, position@));
    out
}

fn push_told(out: &mut Vec<Action>, lines: &Vec<String>)
    ensures
        actions_view(final(out)@) == actions_view(old(out)@) + told(texts(lines@)),
{
    let mut i: usize = 0;
    let ghost model = texts(lines@);
    assert(actions_view(out@) =~= actions_view(old(out)@) + told(model.take(0)));
    while i < lines.len()
        invariant
            i <= lines@.len(),
            model == texts(lines@),
            actions_view(out@) == actions_view(old(out)@) + told(model.take(i as int)),
        decreases lines@.len() - i,
    {
        let ghost before = out@;
        out.push(Action::Tell(lines[i].clone()));
        assert(actions_view(out@) =~= actions_view(before).push(ActionView::Tell(model[i as int])));
        assert(told(model.take(i + 1)) =~= told(model.take(i as int)).push(
            ActionView::Tell(model[i as int]),
        ));
        i += 1;
    }
    assert(model.take(i as int) =~= model);
}

/// The actions at the end of an analysis, given its conclusion and the depth to search to.
pub fn finish(depth: u32, end: Conclusion) -> (r: Vec<Action>)
    ensures
        actions_view(r@) == finish_actions(
            depth,
            opt_text(end.failure),
            texts(end.report@),
            end.submission@,
        ),
{
    let ghost failure = opt_text(end.failure);
    let ghost score = end.submission@;
    let mut out: Vec<Action> = Vec::new();
    out.push(Action::StopClock);
    out.push(Action::ShowDepth(depth));
    out.push(Action::Tell("\n".to_owned()));
    let ghost first = actions_view(out@);
    assert(first =~= seq![
        ActionView::StopClock,
        ActionView::ShowDepth(depth),
        ActionView::Tell("\n"@),
    ]);
    if let Some(message) = end.failure {
        out.push(Action::Warn(message));
    }
    assert(actions_view(out@) =~= first + (match failure {
        Some(message) => seq![ActionView::Warn(message)],
        None => seq![],
    }));
    push_told(&mut out, &end.report);
    let ghost second = actions_view(out@);
    out.push(Action::Submit(end.submission));
    out.push(Action::Beat);
    out.push(Action::TellTime);
    assert(actions_view(out@) =~= second + seq![
        ActionView::Submit(score),
        ActionView::Beat,
        ActionView::TellTime,
    ]);
    push_fetch(&mut out);
    out
}

/// A new worker, and its first action: the engine is asked who it is.
pub open spec fn first_step() -> (WorkerView, Seq<ActionView>) {
    (WorkerView::Greeting("unknown"@), seq![ActionView::Send("uci\n"@)])
}

impl Worker {
    /// Starts the work; gives the actions to take, in order.
    pub fn start() -> (r: (Worker, Vec<Action>))
        ensures
            (r.0@, actions_view(r.1@)) == first_step(),
    {
        let mut out: Vec<Action> = Vec::new();
        out.push(Action::Send("uci\n".to_owned()));
        assert(actions_view(out@) =~= first_step().1);
        (Worker::Greeting { handshake: Handshake::new() }, out)
    }

    /// Takes in an event that the worker waits for; gives the actions to take, in order.
    pub fn on_event(self, prefs: &Prefs, event: Event) -> (r: (Worker, Vec<Action>))
        requires
            awaited(self@, event@),
        ensures
            (r.0@, actions_view(r.1@)) == next_step(prefs@, self@, event@),
    {
        match (self, event) {
            (Worker::Greeting { mut handshake }, Event::Line(line)) => {
                let done: bool = handshake.on_line(line.as_str());
                if done {
                    (
                        Worker::Syncing { engine_name: handshake.engine_name },
                        make_after_greeting(prefs),
                    )
                } else {
                    let none: Vec<Action> = Vec::new();
                    assert(actions_view(none@) =~= seq![]);
                    (Worker::Greeting { handshake }, none)
                }
            },
            (Worker::Greeting { handshake }, Event::Closed) => (
                Worker::Syncing { engine_name: handshake.engine_name },
                make_after_greeting(prefs),
            ),
            (Worker::Syncing { engine_name }, Event::Line(line)) => {
                if is_ready(line.as_str()) {
                    (Worker::Fetching { engine_name }, make_fetch())
                } else {
                    let none: Vec<Action> = Vec::new();
                    assert(actions_view(none@) =~= seq![]);
                    (Worker::Syncing { engine_name }, none)
                }
            },
            (Worker::Syncing { engine_name }, Event::Closed) => (
                Worker::Fetching { engine_name },
                make_fetch(),
            ),
            (Worker::Fetching { engine_name }, Event::Fetched(fetched)) => {
                match fetched {
                    Ok(position) => {
                        let actions: Vec<Action> = make_search(prefs, &position);
                        (
                            Worker::Analysing { engine_name, position, analysis: Analysis::new() },
                            actions,
                        )
                    },
                    Err(error) => (Worker::Fetching { engine_name }, make_retry(error.as_str())),
                }
            },
            (Worker::Analysing { engine_name, position, mut analysis }, Event::Line(line)) => {
                let mut out: Vec<Action> = Vec::new();
                let effect: LineEffect = analysis.on_line(line.as_str());
                if let Some(depth) = effect.progress {
                    out.push(Action::ShowDepth(depth));
                }
                assert(actions_view(out@) =~= progress_actions(effect.progress));
                if effect.finished {
                    let end: Conclusion = conclude(
                        prefs,
                        engine_name.as_str(),
                        &position,
                        &analysis.info,
                    );
                    let ghost shown = actions_view(out@);
                    let mut rest: Vec<Action> = finish(prefs.depth, end);
                    let ghost added = actions_view(rest@);
                    out.append(&mut rest);
                    assert(actions_view(out@) =~= shown + added);
                    (Worker::Fetching { engine_name }, out)
                } else {
                    (Worker::Analysing { engine_name, position, analysis }, out)
                }
            },
            (Worker::Analysing { engine_name, position, analysis }, _) => (
                Worker::Fetching { engine_name },
                make_fetch(),
            ),
            (w, _) => {
                let none: Vec<Action> = Vec::new();
                assert(actions_view(none@) =~= seq![]);
                (w, none)
            },
        }
    }
}

/// The scores that actions hand in, in order.
pub open spec fn submissions(actions: Seq<ActionView>) -> Seq<ScoreView>
    decreases actions.len(),
{
    if actions.len() == 0 {
        seq![]
    } else {
        match actions.last() {
            ActionView::Submit(s) => submissions(actions.drop_last()).push(s),
            _ => submissions(actions.drop_last()),
        }
    }
}

proof fn lemma_submissions_add(a: Seq<ActionView>, b: Seq<ActionView>)
    ensures
        submissions(a + b) == submissions(a) + submissions(b),
    decreases b.len(),
{
    if b.len() == 0 {
        assert(a + b =~= a);
    } else {
        lemma_submissions_add(a, b.drop_last());
        assert((a + b).drop_last() =~= a + b.drop_last());
        assert((a + b).last() == b.last());
        assert(submissions(a + b) =~= submissions(a) + submissions(b));
    }
}

proof fn lemma_no_submissions(a: Seq<ActionView>)
    requires
        forall|i: int| 0 <= i < a.len() ==> !((#[trigger] a[i]) is Submit),
    ensures
        submissions(a) == Seq::<ScoreView>::empty(),
    decreases a.len(),
{
    if a.len() > 0 {
        assert forall|i: int| 0 <= i < a.drop_last().len() implies !((
        #[trigger] a.drop_last()[i]) is Submit) by {
            assert(a.drop_last()[i] == a[i]);
        }
        lemma_no_submissions(a.drop_last());
        assert(!(a.last() is Submit));
    }
}

proof fn lemma_settings_only_send_and_tell(fs: Seq<(Seq<char>, Seq<char>)>)
    ensures
        forall|i: int|
            0 <= i < setting_actions(fs).len() ==> (#[trigger] setting_actions(fs)[i]) is Send
                || setting_actions(fs)[i] is Tell,
    decreases fs.len(),
{
    if fs.len() > 0 {
        lemma_settings_only_send_and_tell(fs.drop_last());
    }
}

/// The end of an analysis: where a worker analyses a position and the engine gives its best move,
/// the score to hand in.
pub open spec fn concluded(p: PrefsView, w: WorkerView, e: EventView) -> Option<ScoreView> {
    match (w, e) {
        (WorkerView::Analysing(name, position, analysis), EventView::Line(line)) => {
            if is_best_move(line) {
                let info = analysed(analysis, line).info;
                Some(
                    score_of(
                        p.user_id,
                        name,
                        position.id,
                        info,
                        displayed(position.fen, info.pv),
                    ),
                )
            } else {
                None
            }
        },
        _ => None,
    }
}

/// A score is handed in exactly when an analysis ends with a best move. It is one score, and it is
/// that of the position that was analysed.
pub proof fn law_submits_on_best_move(p: PrefsView, w: WorkerView, e: EventView)
    ensures
        submissions(next_step(p, w, e).1) == (match concluded(p, w, e) {
            Some(score) => seq![score],
            None => seq![],
        }),
{
    let actions = next_step(p, w, e).1;
    match concluded(p, w, e) {
        Some(score) => {
            let (name, position, analysis) = (w->Analysing_0, w->Analysing_1, w->Analysing_2);
            let line = e->Line_0;
            let info = analysed(analysis, line).info;
            let shown = progress_actions(progress(analysis, line));
            let pv = displayed(position.fen, info.pv);
            let warned = match display_failure(position.fen, info.pv) {
                Some(message) => seq![ActionView::Warn(message)],
                None => seq![],
            };
            let head = seq![
                ActionView::StopClock,
                ActionView::ShowDepth(p.depth),
                ActionView::Tell("\n"@),
            ] + warned + told(report_of(info, pv));
            let last = seq![ActionView::Beat, ActionView::TellTime] + fetch_actions();
            assert(actions =~= (shown + head).push(ActionView::Submit(score)) + last);
            lemma_no_submissions(shown + head);
            lemma_no_submissions(last);
            lemma_submissions_add((shown + head).push(ActionView::Submit(score)), last);
            assert((shown + head).push(ActionView::Submit(score)).drop_last() =~= shown + head);
            assert(submissions(actions) =~= seq![score]);
        },
        None => {
            lemma_settings_only_send_and_tell(settings_of(p.threads, p.syzygy));
            lemma_no_submissions(actions);
        },
    }
}

/// The course of the work from a state, with the actions that led to it, over a sequence of
/// events: the state that it comes to, and all actions.
pub open spec fn course(
    p: PrefsView,
    from: (WorkerView, Seq<ActionView>),
    events: Seq<EventView>,
) -> (WorkerView, Seq<ActionView>)
    decreases events.len(),
{
    if events.len() == 0 {
        from
    } else {
        let before = course(p, from, events.drop_last());
        let step = next_step(p, before.0, events.last());
        (step.0, before.1 + step.1)
    }
}

/// The state of a new worker after a sequence of events.
pub open spec fn state_after(p: PrefsView, events: Seq<EventView>) -> WorkerView {
    course(p, first_step(), events).0
}

/// The actions of a new worker over a sequence of events.
pub open spec fn actions_after(p: PrefsView, events: Seq<EventView>) -> Seq<ActionView> {
    course(p, first_step(), events).1
}

/// How often a position was handed out.
pub open spec fn handed_out(events: Seq<EventView>, id: u64) -> nat
    decreases events.len(),
{
    if events.len() == 0 {
        0
    } else {
        handed_out(events.drop_last(), id) + (match events.last() {
            EventView::Fetched(Ok(position)) if position.id == id => 1nat,
            _ => 0nat,
        })
    }
}

/// How often a score for a position is handed in.
pub open spec fn handed_in(scores: Seq<ScoreView>, id: u64) -> nat
    decreases scores.len(),
{
    if scores.len() == 0 {
        0
    } else {
        handed_in(scores.drop_last(), id) + (if scores.last().fen_id == id {
            1nat
        } else {
            0nat
        })
    }
}

/// Whether a position is being analysed.
pub open spec fn in_hand(w: WorkerView, id: u64) -> nat {
    match w {
        WorkerView::Analysing(_, position, _) if position.id == id => 1,
        _ => 0,
    }
}

/// No score is handed in without the position having been handed out, and none twice for a
/// position that was handed out once.
pub proof fn law_scores_answer_positions(p: PrefsView, events: Seq<EventView>, id: u64)
    ensures
        handed_in(submissions(actions_after(p, events)), id) + in_hand(state_after(p, events), id)
            <= handed_out(events, id),
    decreases events.len(),
{
    if events.len() == 0 {
        lemma_no_submissions(first_step().1);
    } else {
        law_scores_answer_positions(p, events.drop_last(), id);
        let before = course(p, first_step(), events.drop_last());
        let step = next_step(p, before.0, events.last());
        law_submits_on_best_move(p, before.0, events.last());
        lemma_submissions_add(before.1, step.1);
        let old_scores = submissions(before.1);
        match concluded(p, before.0, events.last()) {
            Some(score) => {
                assert(submissions(actions_after(p, events)) =~= old_scores.push(score));
                assert(old_scores.push(score).drop_last() =~= old_scores);
            },
            None => {
                assert(submissions(actions_after(p, events)) =~= old_scores);
            },
        }
    }
}

/// A worker asks for a position exactly when it goes on to wait for one.
pub proof fn law_asks_for_what_it_awaits(p: PrefsView, w: WorkerView, e: EventView)
    requires
        awaited(w, e),
    ensures
        next_step(p, w, e).1.contains(ActionView::Fetch) <==> next_step(p, w, e).0 is Fetching,
{
    let (then, actions) = next_step(p, w, e);
    lemma_settings_only_send_and_tell(settings_of(p.threads, p.syzygy));
    if then is Fetching {
        assert(fetch_actions()[1] == ActionView::Fetch);
        assert(actions[actions.len() - 1] == ActionView::Fetch);
    }
}

/// The event ends the greeting.
pub open spec fn ends_greeting(e: EventView) -> bool {
    e is Closed || (e is Line && is_uci_ok(e->Line_0))
}

/// The event ends the wait for the engine.
pub open spec fn ends_sync(e: EventView) -> bool {
    e is Closed || (e is Line && trimmed(e->Line_0) == "readyok"@)
}

/// Some event ends the greeting, and a later one the wait for the engine.
pub open spec fn is_set_up(events: Seq<EventView>) -> bool {
    exists|i: int, j: int|
        0 <= i < j < events.len() && ends_greeting(#[trigger] events[i]) && ends_sync(
            #[trigger] events[j],
        )
}

/// Positions are asked for only once the engine has greeted and then, with its settings made, is
/// ready; from then on a worker never waits for either again.
pub proof fn law_positions_only_when_ready(p: PrefsView, events: Seq<EventView>)
    ensures
        actions_after(p, events).contains(ActionView::Fetch) ==> is_set_up(events),
        is_set_up(events) <==> state_after(p, events) is Fetching || state_after(p, events) is Analysing,
        state_after(p, events) is Greeting <==> forall|i: int|
            0 <= i < events.len() ==> !ends_greeting(#[trigger] events[i]),
    decreases events.len(),
{
    if events.len() > 0 {
        let prefix = events.drop_last();
        law_positions_only_when_ready(p, prefix);
        let before = course(p, first_step(), prefix);
        let e = events.last();
        let step = next_step(p, before.0, e);
        let n = prefix.len() as int;
        assert(events[n] == e);
        assert(forall|i: int| 0 <= i < n ==> prefix[i] == #[trigger] events[i]);
        lemma_settings_only_send_and_tell(settings_of(p.threads, p.syzygy));
        if is_set_up(prefix) {
            let (i, j) = choose|i: int, j: int|
                0 <= i < j < prefix.len() && ends_greeting(#[trigger] prefix[i]) && ends_sync(
                    #[trigger] prefix[j],
                );
            assert(ends_greeting(events[i]) && ends_sync(events[j]));
            assert(is_set_up(events));
        } else if before.0 is Syncing {
            let i = choose|i: int| 0 <= i < prefix.len() && ends_greeting(#[trigger] prefix[i]);
            assert(ends_greeting(events[i]));
            if ends_sync(e) {
                assert(ends_sync(events[n]));
                assert(is_set_up(events));
            }
        }
        if is_set_up(events) && !is_set_up(prefix) {
            let (i, j) = choose|i: int, j: int|
                0 <= i < j < events.len() && ends_greeting(#[trigger] events[i]) && ends_sync(
                    #[trigger] events[j],
                );
            assert(ends_greeting(prefix[i]));
            if j < n {
                assert(ends_sync(prefix[j]));
            }
        }
        if actions_after(p, events).contains(ActionView::Fetch) && !is_set_up(events) {
            let k = choose|k: int|
                0 <= k < actions_after(p, events).len() && actions_after(p, events)[k]
                    == ActionView::Fetch;
            if k < before.1.len() {
                assert(before.1[k] == ActionView::Fetch);
                assert(before.1.contains(ActionView::Fetch));
            } else {
                assert(step.1[k - before.1.len()] == ActionView::Fetch);
            }
        }
    }
}

/// Lines of the engine, as events.
pub open spec fn line_events(lines: Seq<Seq<char>>) -> Seq<EventView> {
    lines.map_values(|line: Seq<char>| EventView::Line(line))
}

proof fn lemma_lines_are_taken_in(
    p: PrefsView,
    name: Seq<char>,
    position: FenView,
    lines: Seq<Seq<char>>,
)
    requires
        forall|i: int| 0 <= i < lines.len() ==> !is_best_move(#[trigger] lines[i]),
    ensures
        ({
            let from = (WorkerView::Analysing(name, position, no_analysis()), seq![]);
            let to = course(p, from, line_events(lines));
            &&& to.0 == WorkerView::Analysing(name, position, analysis_of(lines))
            &&& submissions(to.1) == Seq::<ScoreView>::empty()
        }),
    decreases lines.len(),
{
    let from = (WorkerView::Analysing(name, position, no_analysis()), seq![]);
    if lines.len() > 0 {
        let init = lines.drop_last();
        assert forall|i: int| 0 <= i < init.len() implies !is_best_move(#[trigger] init[i]) by {
            assert(init[i] == lines[i]);
        }
        lemma_lines_are_taken_in(p, name, position, init);
        assert(!is_best_move(lines[lines.len() - 1]));
        assert(line_events(lines).drop_last() =~= line_events(init));
        let before = course(p, from, line_events(init));
        let e = EventView::Line(lines.last());
        assert(line_events(lines).last() == e);
        law_submits_on_best_move(p, before.0, e);
        lemma_submissions_add(before.1, next_step(p, before.0, e).1);
    }
}

/// What is handed in for a position is the score of all that the engine said of it, up to the
/// line with its best move; then the next position is awaited.
pub proof fn law_score_is_of_all_lines(
    p: PrefsView,
    name: Seq<char>,
    position: FenView,
    lines: Seq<Seq<char>>,
    last: Seq<char>,
)
    requires
        forall|i: int| 0 <= i < lines.len() ==> !is_best_move(#[trigger] lines[i]),
        is_best_move(last),
    ensures
        ({
            let from = (WorkerView::Analysing(name, position, no_analysis()), seq![]);
            let to = course(p, from, line_events(lines.push(last)));
            let info = analysis_of(lines.push(last)).info;
            let pv = displayed(position.fen, info.pv);
            &&& to.0 == WorkerView::Fetching(name)
            &&& submissions(to.1) == seq![score_of(p.user_id, name, position.id, info, pv)]
        }),
{
    let from = (WorkerView::Analysing(name, position, no_analysis()), seq![]);
    lemma_lines_are_taken_in(p, name, position, lines);
    let all = lines.push(last);
    let e = EventView::Line(last);
    assert(all.drop_last() =~= lines);
    assert(line_events(all).drop_last() =~= line_events(lines));
    assert(line_events(all).last() == e);
    let before = course(p, from, line_events(lines));
    law_submits_on_best_move(p, before.0, e);
    lemma_submissions_add(before.1, next_step(p, before.0, e).1);
    assert(submissions(course(p, from, line_events(all)).1) =~= submissions(
        next_step(p, before.0, e).1,
    ));
}

/// The name that a worker knows the engine by.
pub open spec fn name_of(w: WorkerView) -> Seq<char> {
    match w {
        WorkerView::Greeting(name) => name,
        WorkerView::Syncing(name) => name,
        WorkerView::Fetching(name) => name,
        WorkerView::Analysing(name, _, _) => name,
    }
}

/// Once the engine has greeted, its name stays the same.
pub proof fn law_name_is_kept(p: PrefsView, w: WorkerView, e: EventView)
    requires
        !(w is Greeting),
    ensures
        name_of(next_step(p, w, e).0) == name_of(w),
        !(next_step(p, w, e).0 is Greeting),
{
}

/// What is sent behind the greeting: the command of each setting, each followed by its notice to
/// the user, and then the question whether the engine is ready.
proof fn lemma_settings_in_order(fs: Seq<(Seq<char>, Seq<char>)>)
    ensures
        setting_actions(fs).len() == 2 * fs.len(),
        forall|i: int|
            0 <= i < fs.len() ==> setting_actions(fs)[2 * i] == ActionView::Send(
                (#[trigger] fs[i]).0,
            ) && setting_actions(fs)[2 * i + 1] == ActionView::Tell(fs[i].1),
    decreases fs.len(),
{
    if fs.len() > 0 {
        let init = fs.drop_last();
        lemma_settings_in_order(init);
        assert forall|i: int| 0 <= i < fs.len() implies setting_actions(fs)[2 * i]
            == ActionView::Send((#[trigger] fs[i]).0) && setting_actions(fs)[2 * i + 1]
            == ActionView::Tell(fs[i].1) by {
            if i < init.len() {
                assert(init[i] == fs[i]);
            }
        }
    }
}

/// A greeting goes on until a line with `uciok`, or until the engine says no more. Then each
/// setting is sent and told in turn, and the engine is asked whether it is ready.
pub proof fn law_greeting_leads_to_settings(p: PrefsView, name: Seq<char>, line: Seq<char>)
    ensures
        ({
            let w = WorkerView::Greeting(name);
            let fs = settings_of(p.threads, p.syzygy);
            let (then, actions) = next_step(p, w, EventView::Line(line));
            let (closed, closing) = next_step(p, w, EventView::Closed);
            &&& mentions(line, "uciok"@) ==> then == WorkerView::Syncing(named(name, line))
                && actions == closing
            &&& !mentions(line, "uciok"@) ==> then == WorkerView::Greeting(named(name, line))
                && actions.len() == 0
            &&& next_step(p, w, EventView::Unreadable) == (w, Seq::<ActionView>::empty())
            &&& closed == WorkerView::Syncing(name)
            &&& closing.len() == 2 * fs.len() + 1
            &&& closing.last() == ActionView::Send("isready\n"@)
            &&& forall|i: int|
                0 <= i < fs.len() ==> closing[2 * i] == ActionView::Send((#[trigger] fs[i]).0)
                    && closing[2 * i + 1] == ActionView::Tell(fs[i].1)
        }),
{
    lemma_settings_in_order(settings_of(p.threads, p.syzygy));
}

/// The wait for the engine ends with `readyok` and nothing else, or when the engine says no more.
/// Then the first position is asked for.
pub proof fn law_ready_leads_to_positions(p: PrefsView, name: Seq<char>, line: Seq<char>)
    ensures
        ({
            let w = WorkerView::Syncing(name);
            let asked = seq![
                ActionView::Warn(CYAN@ + "Requesting FEN..."@ + RESET@),
                ActionView::Fetch,
            ];
            &&& trimmed(line) == "readyok"@ ==> next_step(p, w, EventView::Line(line)) == (
                WorkerView::Fetching(name),
                asked,
            )
            &&& trimmed(line) != "readyok"@ ==> next_step(p, w, EventView::Line(line)) == (
                w,
                Seq::<ActionView>::empty(),
            )
            &&& next_step(p, w, EventView::Unreadable) == (w, Seq::<ActionView>::empty())
            &&& next_step(p, w, EventView::Closed) == (WorkerView::Fetching(name), asked)
        }),
{
    assert(fetch_actions() =~= seq![
        ActionView::Warn(CYAN@ + "Requesting FEN..."@ + RESET@),
        ActionView::Fetch,
    ]);
}

/// A position that is handed out is the one that is shown, analysed and kept in hand, from a
/// fresh start. Where none is handed out, the user is told why, and after a pause one is asked
/// for again.
pub proof fn law_position_is_analysed(
    p: PrefsView,
    name: Seq<char>,
    position: FenView,
    error: Seq<char>,
)
    ensures
        next_step(p, WorkerView::Fetching(name), EventView::Fetched(Ok(position))) == (
            WorkerView::Analysing(name, position, no_analysis()),
            seq![
                ActionView::Tell(copies('▔', 80)),
                ActionView::Tell("\n"@ + (CYAN@ + "FEN:"@ + RESET@ + " "@ + position.fen)),
                ActionView::Send("ucinewgame\n"@),
                ActionView::Send("position fen "@ + position.fen + "\n"@),
                ActionView::Send("go depth "@ + decimal(p.depth as nat) + "\n"@),
                ActionView::Tell(GREEN@ + "Start Analysis..."@ + RESET@),
                ActionView::StartClock,
            ],
        ),
        next_step(p, WorkerView::Fetching(name), EventView::Fetched(Err(error))) == (
            WorkerView::Fetching(name),
            seq![
                ActionView::Warn(RED@ + ("Failed to fetch FEN: "@ + error) + RESET@),
                ActionView::Pause,
                ActionView::Warn(CYAN@ + "Requesting FEN..."@ + RESET@),
                ActionView::Fetch,
            ],
        ),
{
    assert(search_actions(p, position) =~= seq![
        ActionView::Tell(copies('▔', 80)),
        ActionView::Tell("\n"@ + (CYAN@ + "FEN:"@ + RESET@ + " "@ + position.fen)),
        ActionView::Send("ucinewgame\n"@),
        ActionView::Send("position fen "@ + position.fen + "\n"@),
        ActionView::Send("go depth "@ + decimal(p.depth as nat) + "\n"@),
        ActionView::Tell(GREEN@ + "Start Analysis..."@ + RESET@),
        ActionView::StartClock,
    ]);
    assert(retry_actions(error) =~= seq![
        ActionView::Warn(RED@ + ("Failed to fetch FEN: "@ + error) + RESET@),
        ActionView::Pause,
        ActionView::Warn(CYAN@ + "Requesting FEN..."@ + RESET@),
        ActionView::Fetch,
    ]);
}

/// An analysis takes in each line, with the position that is in hand, and shows each deeper
/// search. A line with `bestmove` ends it, however it stands: the actions behind what the line
/// shows are then those of its end. An engine that breaks off ends it without any score.
pub proof fn law_analysis_goes_on_to_best_move(
    p: PrefsView,
    name: Seq<char>,
    position: FenView,
    v: AnalysisView,
    line: Seq<char>,
)
    ensures
        ({
            let w = WorkerView::Analysing(name, position, v);
            let info = analysed(v, line).info;
            let pv = displayed(position.fen, info.pv);
            let (then, actions) = next_step(p, w, EventView::Line(line));
            let shown = if mentions(line, "info depth"@) && info_of(line).depth > v.ply {
                seq![ActionView::ShowDepth(info_of(line).depth)]
            } else {
                seq![]
            };
            &&& !mentions(line, "bestmove"@) ==> then == WorkerView::Analysing(
                name,
                position,
                analysed(v, line),
            ) && actions == shown
            &&& mentions(line, "bestmove"@) ==> then == WorkerView::Fetching(name) && actions
                == shown + finish_actions(
                p.depth,
                display_failure(position.fen, info.pv),
                report_of(info, pv),
                score_of(p.user_id, name, position.id, info, pv),
            )
            &&& next_step(p, w, EventView::Unreadable).0 == WorkerView::Fetching(name)
            &&& next_step(p, w, EventView::Closed).0 == WorkerView::Fetching(name)
            &&& next_step(p, w, EventView::Unreadable).1 == next_step(p, w, EventView::Closed).1
            &&& next_step(p, w, EventView::Closed).1 == seq![
                ActionView::Warn(CYAN@ + "Requesting FEN..."@ + RESET@),
                ActionView::Fetch,
            ]
        }),
{
    assert(fetch_actions() =~= seq![
        ActionView::Warn(CYAN@ + "Requesting FEN..."@ + RESET@),
        ActionView::Fetch,
    ]);
}

/// At the end of an analysis the clock stops and the full depth is shown; then comes the warning
/// of a PV that could not be converted, where there is one, then every line of the report, then
/// the score, the heartbeat and the time, and last the next position is asked for.
pub proof fn law_end_of_an_analysis(
    depth: u32,
    failure: Option<Seq<char>>,
    lines: Seq<Seq<char>>,
    score: ScoreView,
)
    ensures
        ({
            let actions = finish_actions(depth, failure, lines, score);
            let k = if failure is Some {
                4int
            } else {
                3
            };
            let n = k + lines.len();
            &&& actions.len() == n + 5
            &&& actions[0] == ActionView::StopClock
            &&& actions[1] == ActionView::ShowDepth(depth)
            &&& actions[2] == ActionView::Tell("\n"@)
            &&& failure is Some ==> actions[3] == ActionView::Warn(failure->0)
            &&& forall|i: int|
                0 <= i < lines.len() ==> actions[k + i] == ActionView::Tell(#[trigger] lines[i])
            &&& actions[n] == ActionView::Submit(score)
            &&& actions[n + 1] == ActionView::Beat
            &&& actions[n + 2] == ActionView::TellTime
            &&& actions[n + 3] == ActionView::Warn(CYAN@ + "Requesting FEN..."@ + RESET@)
            &&& actions[n + 4] == ActionView::Fetch
        }),
{
    let actions = finish_actions(depth, failure, lines, score);
    let k = if failure is Some {
        4int
    } else {
        3
    };
    assert forall|i: int| 0 <= i < lines.len() implies actions[k + i] == ActionView::Tell(
        #[trigger] lines[i],
    ) by {
        assert(told(lines)[i] == ActionView::Tell(lines[i]));
    }
}

/// A new worker asks the engine who it is, and does not know it yet.
pub proof fn law_work_begins_with_greeting()
    ensures
        first_step() == (WorkerView::Greeting("unknown"@), seq![ActionView::Send("uci\n"@)]),
{
}

/// The models of workers, events and actions hold what these hold.
pub proof fn law_models_leave_nothing_out(
    name: String,
    handshake: Handshake,
    position: FenData,
    analysis: Analysis,
    text: String,
    depth: u32,
    score: ScoreSubmission,
    actions: Seq<Action>,
)
    ensures
        (Worker::Greeting { handshake })@ == WorkerView::Greeting(handshake.engine_name@),
        (Worker::Syncing { engine_name: name })@ == WorkerView::Syncing(name@),
        (Worker::Fetching { engine_name: name })@ == WorkerView::Fetching(name@),
        (Worker::Analysing { engine_name: name, position, analysis })@ == WorkerView::Analysing(
            name@,
            position@,
            analysis@,
        ),
        Event::Line(text)@ == EventView::Line(text@),
        Event::Unreadable@ == EventView::Unreadable,
        Event::Closed@ == EventView::Closed,
        Event::Fetched(Ok(position))@ == EventView::Fetched(Ok(position@)),
        Event::Fetched(Err(text))@ == EventView::Fetched(Err(text@)),
        Action::Send(text)@ == ActionView::Send(text@),
        Action::Tell(text)@ == ActionView::Tell(text@),
        Action::Warn(text)@ == ActionView::Warn(text@),
        Action::Fetch@ == ActionView::Fetch,
        Action::Pause@ == ActionView::Pause,
        Action::StartClock@ == ActionView::StartClock,
        Action::ShowDepth(depth)@ == ActionView::ShowDepth(depth),
        Action::StopClock@ == ActionView::StopClock,
        Action::Submit(score)@ == ActionView::Submit(score@),
        Action::Beat@ == ActionView::Beat,
        Action::TellTime@ == ActionView::TellTime,
        actions_view(actions).len() == actions.len(),
        forall|i: int|
            0 <= i < actions.len() ==> #[trigger] actions_view(actions)[i] == actions[i]@,
{
}

} // verus!

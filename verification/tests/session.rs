use ocdb_client::session::{
    collect_snapshot, create_session, session_gone_notice, session_notice, update_query,
    update_session, CreateReply, Created, Heartbeat, HeartbeatResult, Reply, UpdateReply, Updated,
    CREATE_SESSION_URL, UPDATE_SESSION_URL,
};

fn text(s: &str) -> String {
    s.to_string()
}

fn red(s: &str) -> String {
    format!("\u{1b}[91m{}\u{1b}[0m", s)
}

#[test]
fn memory_is_told_in_whole_mebibytes() {
    let mb = |bytes: u64| collect_snapshot("", "", "", 1, None, bytes).ram_total_mb;
    assert_eq!(mb(0), 0);
    assert_eq!(mb(1_048_575), 0);
    assert_eq!(mb(1_048_576), 1);
    assert_eq!(mb(16 * 1024 * 1024 * 1024), 16384);
    assert_eq!(mb(u64::MAX), 17_592_186_044_415);
}

#[test]
fn an_update_tells_the_snapshot() {
    let s = collect_snapshot("linux", "x86_64", "avx2", 16, Some(8), 34_359_738_368);
    let expected = vec![
        ("session_id", text("abc")),
        ("os", text("linux")),
        ("arch", text("x86_64")),
        ("cpu_tier", text("avx2")),
        ("logical_cores", text("16")),
        ("ram_total_mb", text("32768")),
        ("physical_cores", text("8")),
    ];
    assert_eq!(update_query("abc", &s), expected);
}

#[test]
fn unknown_physical_cores_are_left_out() {
    let s = collect_snapshot("macos", "aarch64", "generic", 10, None, 0);
    let query = update_query("abc", &s);
    assert_eq!(query.len(), 6);
    assert!(query.iter().all(|(name, _)| *name != "physical_cores"));
}

#[test]
fn sessions_have_their_addresses() {
    assert_eq!(CREATE_SESSION_URL, "https://openchessdb.org/v2/create-session");
    assert_eq!(UPDATE_SESSION_URL, "https://openchessdb.org/v2/update-session");
}

#[test]
fn a_created_session_is_taken() {
    assert_eq!(
        create_session(CreateReply::Created { session_id: text("s1") }),
        Created { session_id: Some(text("s1")), notice: None }
    );
}

#[test]
fn a_bad_response_is_no_session() {
    assert_eq!(
        create_session(CreateReply::BadResponse(text("missing field"))),
        Created {
            session_id: None,
            notice: Some(red("create-session: bad response: missing field")),
        }
    );
}

#[test]
fn a_failed_request_is_no_session() {
    assert_eq!(
        create_session(CreateReply::Failed(text("timed out"))),
        Created { session_id: None, notice: Some(red("create-session failed: timed out")) }
    );
}

#[test]
fn an_accepted_update_keeps_the_session_alive() {
    assert_eq!(
        update_session(UpdateReply::Accepted),
        Updated { result: HeartbeatResult::Alive, notice: None }
    );
}

#[test]
fn only_not_found_says_that_a_session_is_gone() {
    assert_eq!(
        update_session(UpdateReply::Status { code: 404, error: text("e") }),
        Updated { result: HeartbeatResult::SessionGone, notice: None }
    );
    for code in [400u16, 403, 405, 410, 500, 503] {
        assert_eq!(
            update_session(UpdateReply::Status { code, error: text("status") }),
            Updated {
                result: HeartbeatResult::OtherError,
                notice: Some(red("update-session (heartbeat) failed: status")),
            }
        );
    }
}

#[test]
fn an_update_without_an_answer_is_an_error() {
    assert_eq!(
        update_session(UpdateReply::Failed(text("refused"))),
        Updated {
            result: HeartbeatResult::OtherError,
            notice: Some(red("update-session (heartbeat) failed: refused")),
        }
    );
}

#[test]
fn a_heartbeat_without_a_session_creates_one() {
    assert_eq!(Heartbeat::start(None), Heartbeat::Create);
    assert_eq!(
        Heartbeat::Create.on_reply(Reply::Created(Some(text("new")))),
        Heartbeat::Done { session: Some(text("new")) }
    );
    assert_eq!(
        Heartbeat::Create.on_reply(Reply::Created(None)),
        Heartbeat::Done { session: None }
    );
}

#[test]
fn a_heartbeat_keeps_a_session_through_errors() {
    for result in [HeartbeatResult::Alive, HeartbeatResult::OtherError] {
        let beat = Heartbeat::start(Some(text("s")));
        assert_eq!(beat, Heartbeat::Update { session_id: text("s") });
        assert_eq!(
            beat.on_reply(Reply::Updated(result)),
            Heartbeat::Done { session: Some(text("s")) }
        );
    }
}

#[test]
fn a_heartbeat_replaces_a_session_that_is_gone() {
    for reported in
        [HeartbeatResult::Alive, HeartbeatResult::SessionGone, HeartbeatResult::OtherError]
    {
        let beat = Heartbeat::start(Some(text("old")))
            .on_reply(Reply::Updated(HeartbeatResult::SessionGone));
        assert_eq!(beat, Heartbeat::Recreate);
        let beat = beat.on_reply(Reply::Created(Some(text("new"))));
        assert_eq!(beat, Heartbeat::Report { session_id: text("new") });
        assert_eq!(
            beat.on_reply(Reply::Updated(reported)),
            Heartbeat::Done { session: Some(text("new")) }
        );
    }
}

#[test]
fn a_heartbeat_drops_a_session_that_cannot_be_replaced() {
    assert_eq!(
        Heartbeat::Recreate.on_reply(Reply::Created(None)),
        Heartbeat::Done { session: None }
    );
}

#[test]
fn a_heartbeat_makes_at_most_three_requests() {
    let results =
        [HeartbeatResult::Alive, HeartbeatResult::SessionGone, HeartbeatResult::OtherError];
    for session in [None, Some(text("s"))] {
        for result in results {
            for created in [None, Some(text("n"))] {
                let mut beat = Heartbeat::start(session.clone());
                let mut requests = 0;
                let mut creations = 0;
                loop {
                    let reply = match &beat {
                        Heartbeat::Done { .. } => break,
                        Heartbeat::Create | Heartbeat::Recreate => {
                            creations += 1;
                            Reply::Created(created.clone())
                        }
                        Heartbeat::Update { .. } | Heartbeat::Report { .. } => {
                            Reply::Updated(result)
                        }
                    };
                    requests += 1;
                    beat = beat.on_reply(reply);
                }
                assert!(requests <= 3 && creations <= 1);
                if session.is_some() && result != HeartbeatResult::SessionGone {
                    assert_eq!((requests, creations), (1, 0));
                }
            }
        }
    }
}

#[test]
fn the_user_is_told_of_the_session() {
    assert_eq!(session_notice(&Some(text("s9"))), "🔑 Session: s9");
    assert_eq!(
        session_notice(&None),
        "⚠️  Session telemetry unavailable — continuing without it"
    );
    assert_eq!(session_gone_notice(), red("Session expired — creating a new one"));
}

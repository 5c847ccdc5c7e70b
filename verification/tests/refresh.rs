use media_maintenance::refresh::{
    status_path,
    job_state, marker, may_proceed, next_request, on_started, on_status, report_name, stages_to_mark, start_answer,
    AudioMuseRequest, JobState, Pending, RefreshError, Stage, Step,
};

fn pending() -> Pending {
    Pending {
        run_id: "test".into(),
        changed_at: "2026-09-11T12:00:00Z".into(),
        cleaning_done: false,
        cleaning_job: None,
        analysis_job: None,
    }
}

enum Reply {
    Started(u16, Option<&'static str>),
    Status(&'static str),
}

/// One invocation driven by scripted service replies, as the command runs it.
fn advance(state: &mut Pending, replies: &mut std::collections::VecDeque<(&'static str, Reply)>) -> Result<bool, String> {
    let mut request = next_request(state);
    loop {
        let (expected, reply) = replies.pop_front().expect("no reply left");
        let step = match (&request, reply) {
            (AudioMuseRequest::StartCleaning, Reply::Started(code, id)) => {
                assert_eq!(expected, "POST /api/cleaning/start");
                let id = start_answer(code == 409, id.map(String::from)).map_err(|e| format!("{e:?}"))?;
                on_started(state, id)
            }
            (AudioMuseRequest::StartAnalysis, Reply::Started(code, id)) => {
                assert_eq!(expected, "POST /api/analysis/start");
                let id = start_answer(code == 409, id.map(String::from)).map_err(|e| format!("{e:?}"))?;
                on_started(state, id)
            }
            (AudioMuseRequest::PollCleaning(id) | AudioMuseRequest::PollAnalysis(id), Reply::Status(s)) => {
                assert_eq!(expected, format!("GET /api/status/{id}"));
                on_status(state, job_state(id, Some(s), &format!("\"{s}\"")))
            }
            _ => panic!("unexpected request"),
        };
        match step {
            Step::Continue(next) => request = next,
            Step::Done(done) => return Ok(done),
            Step::Failed(message) => return Err(message),
        }
    }
}

#[test]
fn audiomuse_waits_for_cleaning_and_does_not_duplicate_jobs() {
    let mut replies: std::collections::VecDeque<_> = vec![
        ("POST /api/cleaning/start", Reply::Started(202, Some("clean"))),
        ("GET /api/status/clean", Reply::Status("NEW")),
        ("GET /api/status/clean", Reply::Status("SUCCESS")),
        ("POST /api/analysis/start", Reply::Started(202, Some("analysis"))),
        ("GET /api/status/analysis", Reply::Status("RUNNING")),
        ("GET /api/status/analysis", Reply::Status("SUCCESS")),
    ]
    .into();
    let mut state = pending();
    for _ in 0..4 {
        assert!(!advance(&mut state, &mut replies).unwrap());
    }
    assert!(advance(&mut state, &mut replies).unwrap());
    assert!(state.cleaning_done);
    assert_eq!(state.cleaning_job.as_deref(), Some("clean"));
    assert!(replies.is_empty());
}

#[test]
fn busy_audiomuse_preserves_pending_work_without_cancelling_active_task() {
    let mut replies: std::collections::VecDeque<_> =
        vec![("POST /api/cleaning/start", Reply::Started(409, Some("user-analysis")))].into();
    let mut state = pending();
    assert!(!advance(&mut state, &mut replies).unwrap());
    assert!(state.cleaning_job.is_none());
    assert!(!state.cleaning_done);
    assert!(replies.is_empty());
}

#[test]
fn failed_analysis_can_retry_without_repeating_successful_cleaning() {
    let mut replies: std::collections::VecDeque<_> = vec![("GET /api/status/analysis", Reply::Status("FAIL"))].into();
    let mut state = pending();
    state.cleaning_done = true;
    state.analysis_job = Some("analysis".into());
    assert!(advance(&mut state, &mut replies).is_err());
    assert!(state.analysis_job.is_none());
    assert!(state.cleaning_done);
    assert!(replies.is_empty());
}

#[test]
fn unchanged_runs_do_not_create_or_erase_pending_refreshes() {
    for flags in 0..8u8 {
        let stages = stages_to_mark(false, flags & 1 != 0, flags & 2 != 0, flags & 4 != 0);
        assert!(stages.is_empty());
    }
    assert_eq!(stages_to_mark(true, true, false, true), vec![Stage::Integrity, Stage::Audiomuse]);
}

#[test]
fn job_states_and_failure_message() {
    assert!(matches!(job_state("x", Some("queued"), "\"queued\""), JobState::Running));
    assert!(matches!(job_state("x", Some("finished"), "\"finished\""), JobState::Finished));
    match job_state("x", None, "null") {
        JobState::Failed(m) => assert_eq!(m, "AudioMuse job x did not succeed: null"),
        _ => panic!("expected failure"),
    }
    assert_eq!(start_answer(false, None), Err(RefreshError::MissingTaskId));
}

#[test]
fn stage_files_and_order() {
    assert_eq!(marker("/data/reports", Stage::Navidrome), "/data/reports/pending-navidrome.json");
    assert_eq!(report_name(Stage::Audiomuse, "r1"), "refresh-audiomuse-r1.json");
    assert_eq!(may_proceed(Stage::Navidrome, false, false, false), Err(RefreshError::NavidromeScanUnconfirmed));
    assert_eq!(may_proceed(Stage::Audiomuse, false, true, false), Err(RefreshError::EarlierStagesPending));
    assert_eq!(may_proceed(Stage::Audiomuse, false, false, false), Ok(()));
    assert_eq!(status_path("clean"), "/api/status/clean");
    assert_eq!(status_path("a b/\u{fc}"), "/api/status/a%20b%2F%C3%BC");
}
